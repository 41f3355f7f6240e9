//! The text the screen shows, computed from the player's state: the
//! search bar, the now-playing box, the volume and spectrum bars, the
//! results table with its header and footer, the scrollbar and the status
//! line. Drawing it in boxes and colours is left to the caller.
use vstd::prelude::*;
use unicode_width::{UnicodeWidthChar, UnicodeWidthStr};

use crate::app::{App, InputMode};
use crate::float::{filled_cells, filled_cells_of, is_positive, whole_part, whole_part_of};
use crate::rounding::{
    double_of, lemma_div_at_most, lemma_double_of_at_most, lemma_double_of_monotone,
    lemma_round_even_at_most, lemma_two_pow_pos, lemma_two_pow_values, nearest_double,
    nearest_double_wide, quotient_double, round_even, scale, two_pow,
};
use crate::model::{duration_text, format_duration, format_views, views_text, Video};
use crate::text::{
    align_center, align_left, align_right, chars_of, decimal, push_center, push_char, push_chars,
    push_decimal, push_left, push_repeat, push_right, push_str, push_two_digits, repeat,
    two_digits,
};

verus! {

/// Name for the display width `UnicodeWidthStr::width` gives a string.
pub uninterp spec fn text_width(s: Seq<char>) -> usize;

/// Name for the display width `UnicodeWidthChar::width` gives a character
/// (`None` for control characters).
pub uninterp spec fn char_width(c: char) -> Option<usize>;

/// `UnicodeWidthStr::width` (columns per Unicode Annex #11, ambiguous
/// characters narrow). Stated: the result is `text_width` of the string.
#[verifier::external_body]
fn str_columns(s: &str) -> (w: usize)
    ensures
        w == text_width(s@),
{
    s.width()
}

/// `UnicodeWidthChar::width`. Stated: the result is `char_width` of `c`.
#[verifier::external_body]
fn char_columns(c: char) -> (w: Option<usize>)
    ensures
        w == char_width(c),
{
    c.width()
}

/// Columns a character of width `w` takes while truncating (control
/// characters, `None`, take none).
pub open spec fn width_of(w: Option<usize>) -> nat {
    match w {
        Some(x) => x as nat,
        None => 0,
    }
}

/// How many leading characters fit in `limit` columns, given their widths
/// `ws`, reading from index `i` with `used` columns taken: reading stops at
/// the first character that would not fit.
pub open spec fn kept_from(ws: Seq<Option<usize>>, i: int, used: nat, limit: nat) -> int
    decreases ws.len() - i,
{
    if i >= ws.len() || i < 0 {
        ws.len() as int
    } else if used + width_of(ws[i]) > limit {
        i
    } else {
        kept_from(ws, i + 1, used + width_of(ws[i]), limit)
    }
}

/// `s`, of display width `total` and character widths `ws`, cut to `max`
/// columns: unchanged when `max < 2` or when it fits; else the characters
/// that fit in `max - 1` columns and `…`.
pub open spec fn cut_to_width(s: Seq<char>, total: nat, ws: Seq<Option<usize>>, max: nat) -> Seq<
    char,
> {
    if max < 2 || total <= max {
        s
    } else {
        s.take(kept_from(ws, 0, 0, (max - 1) as nat)) + seq!['…']
    }
}

/// The widths unicode-width gives the characters of `s`.
pub open spec fn char_widths(s: Seq<char>) -> Seq<Option<usize>> {
    Seq::new(s.len(), |i: int| char_width(s[i]))
}

/// `s` cut to `max` display columns by unicode-width's measures.
pub open spec fn truncated(s: Seq<char>, max: nat) -> Seq<char> {
    cut_to_width(s, text_width(s) as nat, char_widths(s), max)
}

/// Columns of the first `k` of the widths `ws`.
pub open spec fn cols_sum(ws: Seq<Option<usize>>, k: int) -> nat
    decreases k,
{
    if k <= 0 || k > ws.len() {
        0
    } else {
        cols_sum(ws, k - 1) + width_of(ws[k - 1])
    }
}

proof fn lemma_kept_fits(ws: Seq<Option<usize>>, i: int, used: nat, limit: nat)
    requires
        0 <= i <= ws.len(),
        used == cols_sum(ws, i),
        used <= limit,
    ensures
        i <= kept_from(ws, i, used, limit) <= ws.len(),
        cols_sum(ws, kept_from(ws, i, used, limit)) <= limit,
    decreases ws.len() - i,
{
    if i < ws.len() && used + width_of(ws[i]) <= limit {
        assert(cols_sum(ws, i + 1) == used + width_of(ws[i]));
        lemma_kept_fits(ws, i + 1, used + width_of(ws[i]), limit);
    }
}

/// A cut string keeps a prefix whose widths add up to at most `max - 1`,
/// and ends in `…`.
pub proof fn truncation_fits(s: Seq<char>, total: nat, ws: Seq<Option<usize>>, max: nat)
    requires
        ws.len() == s.len(),
        max >= 2,
        total > max,
    ensures
        cut_to_width(s, total, ws, max) == s.take(kept_from(ws, 0, 0, (max - 1) as nat)) + seq![
            '…',
        ],
        0 <= kept_from(ws, 0, 0, (max - 1) as nat) <= s.len(),
        cols_sum(ws, kept_from(ws, 0, 0, (max - 1) as nat)) <= max - 1,
{
    lemma_kept_fits(ws, 0, 0, (max - 1) as nat);
}

/// Cuts `s`, whose display width is `total` and whose characters have the
/// widths `widths`, to `max` columns, ending it with `…` when it is cut.
pub fn cut_by_widths(s: &str, total: usize, widths: &Vec<Option<usize>>, max: usize) -> (r: String)
    requires
        widths@.len() == s@.len(),
    ensures
        r@ == cut_to_width(s@, total as nat, widths@, max as nat),
{
    if max < 2 || total <= max {
        return crate::text::owned(s);
    }
    let v = chars_of(s);
    let limit: usize = max - 1;
    let mut w: usize = 0;
    let mut i: usize = 0;
    while i < widths.len()
        invariant_except_break
            v@ == s@,
            widths@.len() == v@.len(),
            i <= widths@.len(),
            w <= limit,
            kept_from(widths@, 0, 0, limit as nat) == kept_from(widths@, i as int, w as nat, limit as nat),
        ensures
            v@ == s@,
            i <= v@.len(),
            kept_from(widths@, 0, 0, limit as nat) == i,
        decreases widths@.len() - i,
    {
        let cw: usize = match widths[i] {
            Some(x) => x,
            None => 0,
        };
        if cw > limit - w {
            break;
        }
        w = w + cw;
        i = i + 1;
    }
    let mut out = crate::text::string_of(&v, 0, i);
    push_char(&mut out, '…');
    out
}

/// Cuts `s` to `max` display columns, ending it with `…` when it is cut.
pub fn truncate(s: &str, max: usize) -> (r: String)
    ensures
        r@ == truncated(s@, max as nat),
{
    if max < 2 {
        return crate::text::owned(s);
    }
    let total: usize = str_columns(s);
    if total <= max {
        return crate::text::owned(s);
    }
    let v = chars_of(s);
    let mut widths: Vec<Option<usize>> = Vec::new();
    let mut i: usize = 0;
    while i < v.len()
        invariant
            i <= v@.len(),
            widths@ == char_widths(v@).take(i as int),
        decreases v@.len() - i,
    {
        widths.push(char_columns(v[i]));
        assert(char_widths(v@).take(i + 1) =~= char_widths(v@).take(i as int).push(char_width(v@[i as int])));
        i = i + 1;
    }
    assert(char_widths(v@).take(v@.len() as int) =~= char_widths(v@));
    cut_by_widths(s, total, &widths, max)
}

/// The block character for a bar of height `b` (0 to 7): `▁` to `█`.
pub open spec fn block(b: u8) -> char {
    ((0x2581 + b) as u32) as char
}

/// The spectrum: one block per bar.
pub fn spectrum(bars: &Vec<u8>) -> (r: String)
    requires
        forall|i: int| 0 <= i < bars@.len() ==> bars@[i] < 8,
    ensures
        r@ == Seq::new(bars@.len(), |i: int| block(bars@[i])),
{
    let mut r = String::new();
    let mut i: usize = 0;
    while i < bars.len()
        invariant
            i <= bars@.len(),
            forall|j: int| 0 <= j < bars@.len() ==> bars@[j] < 8,
            r@ == Seq::new(i as nat, |j: int| block(bars@[j])),
        decreases bars@.len() - i,
    {
        let c: char = match bars[i] {
            0 => '▁',
            1 => '▂',
            2 => '▃',
            3 => '▄',
            4 => '▅',
            5 => '▆',
            6 => '▇',
            _ => '█',
        };
        push_char(&mut r, c);
        assert(r@ =~= Seq::new((i + 1) as nat, |j: int| block(bars@[j])));
        i = i + 1;
    }
    r
}

/// The volume bar: ` [`, a `#` per 100/14 of volume, `-` up to 14, `]`.
pub open spec fn volume_bar_text(volume: u8) -> Seq<char> {
    let filled = (volume * 14 / 100) as nat;
    let empty = if filled < 14 { (14 - filled) as nat } else { 0 };
    " ["@ + repeat('#', filled) + repeat('-', empty) + "]"@
}

/// Draws the volume bar.
pub fn volume_bar(volume: u8) -> (r: String)
    ensures
        r@ == volume_bar_text(volume),
{
    let filled: usize = (volume as usize) * 14 / 100;
    let empty: usize = if filled < 14 { 14 - filled } else { 0 };
    let mut r = crate::text::owned(" [");
    push_repeat(&mut r, '#', filled);
    push_repeat(&mut r, '-', empty);
    push_str(&mut r, "]");
    r
}

/// The now-playing line: the pause or play sign, then, when the length is
/// above 0, a bar of `█` and `░` filled as far as the position has gone and
/// the position as `MM:SS`; else "Playing...". The position and length are
/// mpv's seconds, as the bits of the doubles.
pub open spec fn progress_text(paused: bool, position: u64, duration: u64, max_w: nat) -> Seq<char> {
    let icon = if paused { " ⏸"@ } else { " ▶"@ };
    if is_positive(duration) {
        let bar_w = if max_w > 20 { (max_w - 16) as nat } else { 4 };
        let filled = filled_cells(position, duration, bar_w);
        let secs = whole_part(position);
        " "@ + icon + " ["@ + repeat('█', filled) + repeat('░', (bar_w - filled) as nat) + "] "@
            + two_digits(secs / 60) + seq![':'] + two_digits(secs % 60)
    } else {
        " "@ + icon + " Playing..."@
    }
}

/// Draws the now-playing line for a box `max_w` columns wide.
pub fn progress(paused: bool, position: u64, duration: u64, max_w: u16) -> (r: String)
    ensures
        r@ == progress_text(paused, position, duration, max_w as nat),
{
    let mut r = crate::text::owned(" ");
    if paused {
        push_str(&mut r, " ⏸");
    } else {
        push_str(&mut r, " ▶");
    }
    let (neg, e, f) = (
        duration >= 0x8000_0000_0000_0000,
        duration / 0x10_0000_0000_0000 % 2048,
        duration % 0x10_0000_0000_0000,
    );
    if !neg && !(e == 2047 && f != 0) && (e != 0 || f != 0) {
        let bar_w: u16 = if max_w > 20 { max_w - 16 } else { 4 };
        let filled: usize = filled_cells_of(position, duration, bar_w);
        push_str(&mut r, " [");
        push_repeat(&mut r, '█', filled);
        push_repeat(&mut r, '░', bar_w as usize - filled);
        push_str(&mut r, "] ");
        let secs: u64 = whole_part_of(position);
        push_two_digits(&mut r, secs / 60);
        push_char(&mut r, ':');
        push_two_digits(&mut r, secs % 60);
    } else {
        push_str(&mut r, " Playing...");
    }
    r
}

/// Widths of the title and channel columns for a list `width` columns
/// wide: 45% and 25% of the width less 4.
pub fn column_widths(width: u16) -> (r: (usize, usize))
    ensures
        r.0 == (if width > 4 { width - 4 } else { 0 }) * 45 / 100,
        r.1 == (if width > 4 { width - 4 } else { 0 }) * 25 / 100,
{
    let avail: usize = if width > 4 { (width - 4) as usize } else { 0 };
    (avail * 45 / 100, avail * 25 / 100)
}

/// The first result shown and how many are shown, for `total` results,
/// room for `avail` rows and the scroll offset `scroll_offset`.
pub open spec fn window(scroll_offset: nat, total: nat, avail: nat) -> (nat, nat) {
    let last = if total > 0 { (total - 1) as nat } else { 0 };
    let scroll = if scroll_offset < last { scroll_offset } else { last };
    let left = if total > scroll { (total - scroll) as nat } else { 0 };
    let count = if avail < left { avail } else { left };
    let end = if scroll + count < total { scroll + count } else { total };
    (scroll, if scroll < total && end > scroll { (end - scroll) as nat } else { 0 })
}

/// Computes `window`.
pub fn visible_window(scroll_offset: usize, total: usize, avail: usize) -> (r: (usize, usize))
    ensures
        (r.0 as nat, r.1 as nat) == window(scroll_offset as nat, total as nat, avail as nat),
        r.0 + r.1 <= total,
        total > 0 ==> r.0 < total,
        r.1 <= avail,
{
    let last: usize = if total > 0 { total - 1 } else { 0 };
    let scroll: usize = if scroll_offset < last { scroll_offset } else { last };
    let left: usize = if total > scroll { total - scroll } else { 0 };
    let count: usize = if avail < left { avail } else { left };
    let end: usize = if count < total - scroll { scroll + count } else { total };
    (scroll, if scroll < total && end > scroll { end - scroll } else { 0 })
}

/// The header of the results table.
pub open spec fn header_text(title_w: nat, chan_w: nat) -> Seq<char> {
    align_center("No"@, 7) + " "@ + align_center("Title"@, title_w) + " "@ + align_center(
        "Channel"@,
        chan_w,
    ) + " "@ + align_center("Duration"@, 9) + " "@ + align_center("Views"@, 10)
}

/// Draws the header of the results table.
pub fn header_line(title_w: usize, chan_w: usize) -> (r: String)
    ensures
        r@ == header_text(title_w as nat, chan_w as nat),
{
    let mut r = String::new();
    push_center(&mut r, &chars_of("No"), 7);
    push_str(&mut r, " ");
    push_center(&mut r, &chars_of("Title"), title_w);
    push_str(&mut r, " ");
    push_center(&mut r, &chars_of("Channel"), chan_w);
    push_str(&mut r, " ");
    push_center(&mut r, &chars_of("Duration"), 9);
    push_str(&mut r, " ");
    push_center(&mut r, &chars_of("Views"), 10);
    r
}

/// The number cell of a row: `▶` for the playlist's current item.
pub open spec fn index_text(number: nat, current: bool) -> Seq<char> {
    if current {
        " ▶"@ + align_right(decimal(number), 3) + " "@
    } else {
        " ["@ + align_right(decimal(number), 3) + "]"@
    }
}

/// The duration cell of a row: `LIVE` for live videos.
pub open spec fn length_text(v: Video) -> Seq<char> {
    if v.is_live {
        "LIVE    "@
    } else {
        "["@ + align_right(duration_text(v.duration as nat), 7) + "]"@
    }
}

/// A row of the results table for the video at (0-based) `index`.
pub open spec fn row_text(index: nat, v: Video, current: bool, title_w: nat, chan_w: nat) -> Seq<
    char,
> {
    align_center(index_text(index + 1, current), 7) + " "@ + align_left(
        truncated(v.title@, title_w),
        title_w,
    ) + " "@ + align_left(truncated(v.channel@, chan_w), chan_w) + " "@ + align_right(
        length_text(v),
        11,
    ) + " "@ + align_right("["@ + align_right(views_text(v.views as nat), 8) + "]"@, 12)
}

fn push_string_right(r: &mut String, s: &String, width: usize)
    ensures
        final(r)@ == old(r)@ + align_right(s@, width as nat),
{
    push_right(r, &chars_of(s.as_str()), width);
}

/// Draws a row of the results table.
pub fn result_line(index: usize, v: &Video, current: bool, title_w: usize, chan_w: usize) -> (r:
    String)
    requires
        index < usize::MAX,
    ensures
        r@ == row_text(index as nat, *v, current, title_w as nat, chan_w as nat),
{
    let mut idx = String::new();
    if current {
        push_str(&mut idx, " ▶");
    } else {
        push_str(&mut idx, " [");
    }
    push_string_right(&mut idx, &crate::text::decimal_string((index + 1) as u64), 3);
    if current {
        push_str(&mut idx, " ");
    } else {
        push_str(&mut idx, "]");
    }
    let mut len = String::new();
    if v.is_live {
        push_str(&mut len, "LIVE    ");
    } else {
        push_str(&mut len, "[");
        push_string_right(&mut len, &format_duration(v.duration), 7);
        push_str(&mut len, "]");
    }
    let mut views = crate::text::owned("[");
    push_string_right(&mut views, &format_views(v.views), 8);
    push_str(&mut views, "]");
    let mut r = String::new();
    push_center(&mut r, &chars_of(idx.as_str()), 7);
    push_str(&mut r, " ");
    push_left(&mut r, &chars_of(truncate(v.title.as_str(), title_w).as_str()), title_w);
    push_str(&mut r, " ");
    push_left(&mut r, &chars_of(truncate(v.channel.as_str(), chan_w).as_str()), chan_w);
    push_str(&mut r, " ");
    push_right(&mut r, &chars_of(len.as_str()), 11);
    push_str(&mut r, " ");
    push_right(&mut r, &chars_of(views.as_str()), 12);
    r
}

/// The footer under the results: which results are shown, of how many,
/// and how many more are below.
pub open spec fn footer_text(scroll: nat, shown: nat, total: nat) -> Seq<char> {
    let end = scroll + shown;
    let pos = if total > 0 {
        " Results "@ + decimal(scroll + 1) + "-"@ + decimal(end) + " of "@ + decimal(total)
            + " "@
    } else {
        " No results "@
    };
    pos + if total > end {
        " (+"@ + decimal((total - end) as nat) + " more below) "@
    } else {
        seq![]
    }
}

/// Draws the footer under the results.
pub fn footer_line(scroll: usize, shown: usize, total: usize) -> (r: String)
    requires
        scroll + shown <= total,
        total > 0 ==> scroll < total,
    ensures
        r@ == footer_text(scroll as nat, shown as nat, total as nat),
{
    let end: usize = scroll + shown;
    let mut r = String::new();
    if total > 0 {
        push_str(&mut r, " Results ");
        push_decimal(&mut r, (scroll + 1) as u64);
        push_str(&mut r, "-");
        push_decimal(&mut r, end as u64);
        push_str(&mut r, " of ");
        push_decimal(&mut r, total as u64);
        push_str(&mut r, " ");
    } else {
        push_str(&mut r, " No results ");
    }
    if total > end {
        push_str(&mut r, " (+");
        push_decimal(&mut r, (total - end) as u64);
        push_str(&mut r, " more below) ");
    }
    r
}

/// The thumb's cell for a scroll position `scroll` out of `span` on a
/// track of `track` cells, as `((scroll as f64 / span as f64) * track as f64)
/// as u16` computes it: both counts become the nearest doubles `a` and `b`,
/// `a / b` is rounded to the double `ratio / 2^f` (53-bit significand, ties
/// to even), the product with `track` is rounded the same way, and the cast
/// keeps the integer part, at most `u16::MAX`. Meant for `a < 2^53 * b`.
pub open spec fn float_thumb(scroll: nat, span: nat, track: nat) -> nat {
    let a = double_of(scroll);
    let b = double_of(span);
    if a == 0 {
        0
    } else {
        let f = scale(a, b);
        let ratio = round_even(a * two_pow(f), b);
        let cell = double_of(ratio * track) / two_pow(f);
        if cell < 0x10000 {
            cell
        } else {
            0xffff
        }
    }
}

/// The scrollbar of a column `height` rows high: the number of track cells
/// between the arrows and the cell of the thumb; none for an empty list or
/// a column under 3 rows.
pub open spec fn scrollbar_spec(scroll_offset: nat, total: nat, height: nat) -> Option<(nat, nat)> {
    let vis = if height > 2 { (height - 2) as nat } else { 0 };
    if total == 0 || vis == 0 || height < 3 {
        None
    } else {
        let scroll = if scroll_offset < total - 1 { scroll_offset } else { (total - 1) as nat };
        let track = (height - 3) as nat;
        let thumb = if total <= vis {
            0
        } else {
            float_thumb(scroll, (total - vis) as nat, track)
        };
        Some((track, thumb))
    }
}

/// While the scroll offset does not pass the last page, the thumb stays on
/// the track.
pub proof fn thumb_within_track(scroll_offset: nat, total: nat, height: nat)
    requires
        3 <= height <= 0xffff,
        total > height - 2,
        scroll_offset <= total - (height - 2),
    ensures
        scrollbar_spec(scroll_offset, total, height) matches Some((track, thumb)) && thumb
            <= track,
{
    let vis = (height - 2) as nat;
    let track = (height - 3) as nat;
    let scroll = if scroll_offset < total - 1 { scroll_offset } else { (total - 1) as nat };
    let span = (total - vis) as nat;
    assert(scroll <= span);
    let a = double_of(scroll);
    let b = double_of(span);
    lemma_double_of_monotone(scroll, span);
    if a > 0 {
        let f = scale(a, b);
        let pf = two_pow(f);
        lemma_two_pow_pos(f);
        assert(a * pf <= pf * b) by (nonlinear_arith)
            requires
                a <= b,
        ;
        lemma_round_even_at_most(a * pf, b, pf);
        let ratio = round_even(a * pf, b);
        assert(ratio * track <= pf * track) by (nonlinear_arith)
            requires
                ratio <= pf,
        ;
        lemma_two_pow_values();
        lemma_double_of_at_most(ratio * track, f, track);
        lemma_div_at_most(double_of(ratio * track), pf, track);
    }
}

/// Computes `scrollbar_spec`.
pub fn scrollbar(scroll_offset: usize, total: usize, height: u16) -> (r: Option<(usize, usize)>)
    ensures
        match r {
            Some((a, b)) => scrollbar_spec(scroll_offset as nat, total as nat, height as nat)
                == Some((a as nat, b as nat)),
            None => scrollbar_spec(scroll_offset as nat, total as nat, height as nat) is None,
        },
{
    let vis: usize = if height > 2 { (height - 2) as usize } else { 0 };
    if total == 0 || vis == 0 || height < 3 {
        return None;
    }
    let scroll: usize = if scroll_offset < total - 1 { scroll_offset } else { total - 1 };
    let track: usize = (height - 3) as usize;
    let thumb: usize = if total <= vis {
        0
    } else {
        let span: usize = total - vis;
        let a: u128 = nearest_double(scroll as u64);
        let b: u128 = nearest_double(span as u64);
        if a == 0 {
            0
        } else {
            assert(b >= 1 && a < 0x20_0000_0000_0000 * b) by {
                if span < 0x1000 {
                    assert(b == span);
                    assert(scroll < 0x20_0000_0000_0000);
                    assert(a == scroll);
                } else if span < 0x20_0000_0000_0000 {
                    assert(b == span);
                } else {
                    assert(b >= 1_000_000_000);
                }
            }
            let (ratio, p) = quotient_double(a, b);
            assert(ratio * (track as u128) <= 0x20_0000_0000_0000 * 0xffff) by (nonlinear_arith)
                requires
                    ratio <= 0x20_0000_0000_0000u128,
                    track <= 0xffff,
            ;
            let cell: u128 = nearest_double_wide(ratio * (track as u128)) / p;
            if cell < 0x10000 {
                cell as usize
            } else {
                0xffff
            }
        }
    };
    Some((track, thumb))
}

/// The times of the status line: position / length, and `[PAUSED]`. The
/// position and length are mpv's seconds, as the bits of the doubles.
pub open spec fn status_time_text(position: u64, duration: u64, paused: bool) -> Seq<char> {
    duration_text(whole_part(position)) + " / "@ + duration_text(whole_part(duration)) + if paused {
        " [PAUSED]"@
    } else {
        seq![]
    }
}

/// Draws the times of the status line.
pub fn status_time(position: u64, duration: u64, paused: bool) -> (r: String)
    ensures
        r@ == status_time_text(position, duration, paused),
{
    let mut r = format_duration(whole_part_of(position));
    push_str(&mut r, " / ");
    let d = format_duration(whole_part_of(duration));
    push_str(&mut r, d.as_str());
    if paused {
        push_str(&mut r, " [PAUSED]");
    }
    r
}

/// `Vol: N%`.
pub fn volume_text(volume: u8) -> (r: String)
    ensures
        r@ == "Vol: "@ + decimal(volume as nat) + "%"@,
{
    let mut r = crate::text::owned("Vol: ");
    push_decimal(&mut r, volume as u64);
    push_str(&mut r, "%");
    r
}

/// The key help shown in the status line when nothing plays.
pub fn help_text(mode: InputMode) -> (r: &'static str)
    ensures
        mode == InputMode::Search ==> r@
            == " [Enter] Search  [↑↓] Nav  [F1] Mute  [F2/F3] Vol  [F4] Stop  [^C] Quit"@,
        mode == InputMode::Normal ==> r@
            == " [Enter/Space] Play  [N] Next  [P] Prev  [S] Stop  [R] Repeat  [X] Shuffle  [L] Load More  [/] Search  [^C] Quit"@,
{
    match mode {
        InputMode::Search => " [Enter] Search  [↑↓] Nav  [F1] Mute  [F2/F3] Vol  [F4] Stop  [^C] Quit",
        InputMode::Normal => " [Enter/Space] Play  [N] Next  [P] Prev  [S] Stop  [R] Repeat  [X] Shuffle  [L] Load More  [/] Search  [^C] Quit",
    }
}

/// The tag of the input mode in the search bar.
pub fn mode_tag(mode: InputMode) -> (r: &'static str)
    ensures
        mode == InputMode::Search ==> r@ == " SEARCH "@,
        mode == InputMode::Normal ==> r@ == " NORMAL "@,
{
    match mode {
        InputMode::Search => " SEARCH ",
        InputMode::Normal => " NORMAL ",
    }
}

/// The text cursor of the search bar, shown while typing.
pub fn search_cursor(mode: InputMode) -> (r: &'static str)
    ensures
        mode == InputMode::Search ==> r@ == "█"@,
        mode == InputMode::Normal ==> r@ == ""@,
{
    match mode {
        InputMode::Search => "█",
        InputMode::Normal => "",
    }
}

/// `On` or `Off`.
pub fn on_off(on: bool) -> (r: &'static str)
    ensures
        on ==> r@ == "On"@,
        !on ==> r@ == "Off"@,
{
    if on {
        "On"
    } else {
        "Off"
    }
}

impl App {
    /// The label before the query: plain before any result, else naming the
    /// query.
    pub fn search_label(&self) -> (r: String)
        ensures
            self.results@.len() == 0 ==> r@ == "  Search: "@,
            self.results@.len() > 0 ==> r@ == "  Search Results '"@ + self.query@ + "' "@,
    {
        if self.results.len() == 0 {
            crate::text::owned("  Search: ")
        } else {
            let mut r = crate::text::owned("  Search Results '");
            push_str(&mut r, self.query.as_str());
            push_str(&mut r, "' ");
            r
        }
    }

    /// The message shown in place of the results, if any: while searching,
    /// before any result, or an error.
    pub fn results_message(&self) -> (r: Option<String>)
        ensures
            self.searching ==> (r matches Some(m) && m@ == "Searching..."@),
            !self.searching && self.results@.len() == 0 ==> (r matches Some(m) && m@
                == "Type a query and press Enter"@),
            !self.searching && self.results@.len() > 0 ==> match self.error {
                Some(e) => r matches Some(m) && m@ == e@,
                None => r is None,
            },
    {
        if self.searching {
            return Some(crate::text::owned("Searching..."));
        }
        if self.results.len() == 0 {
            return Some(crate::text::owned("Type a query and press Enter"));
        }
        match &self.error {
            Some(e) => Some(e.clone()),
            None => None,
        }
    }

    /// Is there an item after the current one?
    pub fn has_next(&self) -> (b: bool)
        ensures
            b == (self.playlist.current + 1 < self.playlist.items@.len()),
    {
        self.playlist.current < self.playlist.items.len() && self.playlist.items.len()
            - self.playlist.current > 1
    }

    /// Is there an item before the current one?
    pub fn has_prev(&self) -> (b: bool)
        ensures
            b == (self.playlist.current > 0),
    {
        self.playlist.current > 0
    }

    /// Is the row at `index` the item being played?
    pub fn is_playing_row(&self, index: usize) -> (b: bool)
        ensures
            b == (index == self.playlist.current && self.track is Some),
    {
        index == self.playlist.current && self.track.is_some()
    }
}

} // verus!
