//! The data the player works on: videos, the track being played, the
//! playlist with its shuffle state, and the repeat mode.
use vstd::prelude::*;
use rand::seq::SliceRandom;

use crate::rounding::{double_of, nearest_double, quotient_tenths, tenths_of_quotient};
use crate::text::{decimal, decimal_string, digit, push_char, push_decimal, push_str, push_two_digits, two_digits};

verus! {

broadcast use vstd::seq_lib::group_to_multiset_ensures;

/// What happens when the last track of the playlist ends.
#[derive(Debug, Clone, Copy, PartialEq, Eq, Structural)]
pub enum RepeatMode {
    Off,
    All,
    One,
}

impl RepeatMode {
    /// The mode that follows `self` in the cycle Off → All → One → Off.
    pub open spec fn successor(self) -> RepeatMode {
        match self {
            RepeatMode::Off => RepeatMode::All,
            RepeatMode::All => RepeatMode::One,
            RepeatMode::One => RepeatMode::Off,
        }
    }

    /// The label shown for the mode.
    pub open spec fn label_text(self) -> Seq<char> {
        match self {
            RepeatMode::Off => "Off"@,
            RepeatMode::All => "All"@,
            RepeatMode::One => "One"@,
        }
    }

    /// Next mode in the cycle.
    pub fn next(&self) -> (r: Self)
        ensures
            r == self.successor(),
    {
        match self {
            RepeatMode::Off => RepeatMode::All,
            RepeatMode::All => RepeatMode::One,
            RepeatMode::One => RepeatMode::Off,
        }
    }

    /// Label of the mode.
    pub fn label(&self) -> (r: &'static str)
        ensures
            r@ == self.label_text(),
    {
        match self {
            RepeatMode::Off => "Off",
            RepeatMode::All => "All",
            RepeatMode::One => "One",
        }
    }
}

/// Stepping the repeat mode three times gives back the mode one started with.
pub proof fn repeat_mode_cycles(m: RepeatMode)
    ensures
        m.successor().successor().successor() == m,
        m.successor() != m,
{
}

/// One search result.
#[derive(Debug, Clone, PartialEq, Eq)]
pub struct Video {
    pub id: String,
    pub title: String,
    pub channel: String,
    /// Length in whole seconds (the fractional part yt-dlp reports is
    /// never shown).
    pub duration: u64,
    pub views: u64,
    pub is_live: bool,
}

impl Video {
    /// A copy of the video, equal to it.
    pub fn duplicate(&self) -> (r: Video)
        ensures
            r == *self,
    {
        Video {
            id: self.id.clone(),
            title: self.title.clone(),
            channel: self.channel.clone(),
            duration: self.duration,
            views: self.views,
            is_live: self.is_live,
        }
    }
}

/// Copies of `v[from..to]`.
pub fn copy_videos(v: &Vec<Video>, from: usize, to: usize) -> (r: Vec<Video>)
    requires
        from <= to <= v@.len(),
    ensures
        r@ == v@.subrange(from as int, to as int),
{
    let mut r: Vec<Video> = Vec::new();
    let mut i: usize = from;
    while i < to
        invariant
            from <= i <= to <= v@.len(),
            r@ == v@.subrange(from as int, i as int),
        decreases to - i,
    {
        r.push(v[i].duplicate());
        assert(v@.subrange(from as int, i + 1) == v@.subrange(from as int, i as int).push(v@[i as int]));
        i = i + 1;
    }
    r
}

/// The track being played.
#[derive(Debug, Clone, PartialEq, Eq)]
pub struct Track {
    pub video: Video,
    /// Playback position in seconds, as the bits of the double mpv reports
    /// (`f64::to_bits`).
    pub position: u64,
    /// Length in seconds reported by the player, as the bits of the double.
    pub duration: u64,
    pub volume: u8,
    pub paused: bool,
}

/// The play queue.
#[derive(Debug, Clone)]
pub struct Playlist {
    pub items: Vec<Video>,
    pub current: usize,
    pub shuffled: bool,
    /// The order `items` had before `shuffle`; empty when not shuffled.
    pub original_items: Vec<Video>,
}

/// The playlist as the contracts see it.
#[verifier::ext_equal]
pub struct PlaylistView {
    pub items: Seq<Video>,
    pub current: usize,
    pub shuffled: bool,
    pub original_items: Seq<Video>,
}

impl View for Playlist {
    type V = PlaylistView;

    open spec fn view(&self) -> PlaylistView {
        PlaylistView {
            items: self.items@,
            current: self.current,
            shuffled: self.shuffled,
            original_items: self.original_items@,
        }
    }
}

impl PlaylistView {
    /// This playlist holding `items` instead.
    pub open spec fn with_items(self, items: Seq<Video>) -> PlaylistView {
        PlaylistView { items: items, ..self }
    }

    /// The playlist after `next`: one item further unless at the end.
    pub open spec fn advanced(self) -> PlaylistView {
        if self.current + 1 < self.items.len() {
            PlaylistView { current: (self.current + 1) as usize, ..self }
        } else {
            self
        }
    }

    /// The playlist after `prev`: one item back unless at the start.
    pub open spec fn retreated(self) -> PlaylistView {
        if self.current > 0 {
            PlaylistView { current: (self.current - 1) as usize, ..self }
        } else {
            self
        }
    }
}

/// `prev` undoes a `next` that moved, and `next` undoes a `prev` that moved
/// within the list.
pub proof fn next_prev_inverse(p: PlaylistView)
    requires
        p.items.len() <= usize::MAX,
    ensures
        p.current + 1 < p.items.len() ==> p.advanced().retreated() == p,
        0 < p.current < p.items.len() ==> p.retreated().advanced() == p,
{
}

/// `k` is where the first video with id `id` stands in `s`, or, when no
/// video has that id, `k` is 0.
pub open spec fn located(s: Seq<Video>, id: Seq<char>, k: int) -> bool {
    if exists|i: int| 0 <= i < s.len() && (#[trigger] s[i]).id@ == id {
        &&& 0 <= k < s.len()
        &&& s[k].id@ == id
        &&& forall|j: int| 0 <= j < k ==> (#[trigger] s[j]).id@ != id
    } else {
        k == 0
    }
}

/// Index of the first video of `items` whose id is `id`, or 0.
fn position_of_id(items: &Vec<Video>, id: &String) -> (k: usize)
    ensures
        located(items@, id@, k as int),
{
    let mut i: usize = 0;
    while i < items.len()
        invariant
            i <= items@.len(),
            forall|j: int| 0 <= j < i ==> (#[trigger] items@[j]).id@ != id@,
        decreases items@.len() - i,
    {
        if items[i].id == *id {
            return i;
        }
        i = i + 1;
    }
    0
}

/// The declared random-number generator of `rand`.
#[verifier::external_type_specification]
#[verifier::external_body]
pub struct ExThreadRng(rand::rngs::ThreadRng);

/// `rand::rng()`: a handle to the thread-local generator. Nothing is
/// stated of it; it panics only where the operating system gives no
/// randomness to seed it.
#[verifier::external_body]
fn thread_rng() -> rand::rngs::ThreadRng {
    rand::rng()
}

/// `SliceRandom::shuffle`: permutes the vector in place (a Fisher-Yates
/// shuffle made of swaps). Stated: the result holds the same videos, each
/// as often as before; which order comes out is left open.
#[verifier::external_body]
fn shuffle_videos(items: &mut Vec<Video>, rng: &mut rand::rngs::ThreadRng)
    ensures
        final(items)@.to_multiset() == old(items)@.to_multiset(),
{
    items.shuffle(rng)
}

impl Playlist {
    /// The view of an empty playlist.
    pub open spec fn new_view() -> PlaylistView {
        PlaylistView {
            items: Seq::empty(),
            current: 0,
            shuffled: false,
            original_items: Seq::empty(),
        }
    }

    /// An empty playlist.
    pub fn new() -> (p: Self)
        ensures
            p@ == Playlist::new_view(),
    {
        Playlist { items: Vec::new(), current: 0, shuffled: false, original_items: Vec::new() }
    }

    /// Number of items.
    pub fn len(&self) -> (n: usize)
        ensures
            n == self.items@.len(),
    {
        self.items.len()
    }

    /// Makes `index` the current item if it exists.
    pub fn play_at(&mut self, index: usize) -> (r: Option<&Video>)
        ensures
            index < old(self).items@.len() ==> final(self)@ == (PlaylistView {
                current: index,
                ..old(self)@
            }) && r == Some(&old(self).items@[index as int]),
            index >= old(self).items@.len() ==> final(self)@ == old(self)@ && r is None,
    {
        if index < self.items.len() {
            self.current = index;
            Some(&self.items[index])
        } else {
            None
        }
    }
}


/// `after` is what `Playlist::shuffle` makes of `before`.
pub open spec fn shuffle_result(before: PlaylistView, after: PlaylistView) -> bool {
    if before.shuffled || before.items.len() == 0 {
        after == before
    } else {
        &&& after.shuffled
        &&& after.original_items == before.items
        &&& after.items.to_multiset() == before.items.to_multiset()
        &&& after.items.len() == before.items.len()
        &&& if before.current < before.items.len() {
            located(after.items, before.items[before.current as int].id@, after.current as int)
        } else {
            after.current == before.current
        }
    }
}

/// `after` is what `Playlist::unshuffle` makes of `before`.
pub open spec fn unshuffle_result(before: PlaylistView, after: PlaylistView) -> bool {
    if !before.shuffled || before.original_items.len() == 0 {
        after == before
    } else {
        &&& !after.shuffled
        &&& after.items == before.original_items
        &&& after.original_items == Seq::<Video>::empty()
        &&& if before.current < before.items.len() {
            located(after.items, before.items[before.current as int].id@, after.current as int)
        } else {
            after.current == before.current
        }
    }
}

impl Playlist {
    /// Moves to the following item; `None` at the end (the caller then
    /// consults the repeat mode).
    pub fn next(&mut self) -> (r: Option<&Video>)
        requires
            old(self).current < usize::MAX,
        ensures
            final(self)@ == old(self)@.advanced(),
            r == (if old(self).current + 1 < old(self).items@.len() {
                Some(&old(self).items@[old(self).current + 1])
            } else {
                None
            }),
    {
        if self.current + 1 < self.items.len() {
            self.current = self.current + 1;
            Some(&self.items[self.current])
        } else {
            None
        }
    }

    /// Moves to the preceding item; `None` at the start.
    pub fn prev(&mut self) -> (r: Option<&Video>)
        ensures
            final(self)@ == old(self)@.retreated(),
            r == (if 0 < old(self).current <= old(self).items@.len() {
                Some(&old(self).items@[old(self).current - 1])
            } else {
                None
            }),
    {
        if self.current > 0 {
            self.current = self.current - 1;
            if self.current < self.items.len() {
                Some(&self.items[self.current])
            } else {
                None
            }
        } else {
            None
        }
    }

    /// Appends videos to the end of the queue.
    pub fn enqueue(&mut self, videos: Vec<Video>)
        ensures
            final(self)@ == (PlaylistView { items: old(self).items@ + videos@, ..old(self)@ }),
    {
        let mut videos = videos;
        self.items.append(&mut videos);
    }

    /// Empties the queue and forgets any shuffle.
    pub fn clear(&mut self)
        ensures
            final(self)@ == Playlist::new_view(),
    {
        self.items.clear();
        self.current = 0;
        self.shuffled = false;
        self.original_items.clear();
    }

    /// Puts the queue in random order, remembering the old order; the item
    /// being played stays the current one.
    pub fn shuffle(&mut self)
        ensures
            shuffle_result(old(self)@, final(self)@),
    {
        if self.shuffled || self.items.len() == 0 {
            return;
        }
        self.shuffled = true;
        self.original_items = copy_videos(&self.items, 0, self.items.len());
        assert(self.items@.subrange(0, self.items@.len() as int) == self.items@);
        let current_id: Option<String> = if self.current < self.items.len() {
            Some(self.items[self.current].id.clone())
        } else {
            None
        };
        let mut rng = thread_rng();
        let ghost unshuffled = self.items@;
        shuffle_videos(&mut self.items, &mut rng);
        proof {
            vstd::seq_lib::to_multiset_len(unshuffled);
            vstd::seq_lib::to_multiset_len(self.items@);
        }
        if let Some(id) = current_id {
            self.current = position_of_id(&self.items, &id);
        }
    }

    /// Restores the order from before `shuffle`; the item being played stays
    /// the current one.
    pub fn unshuffle(&mut self)
        ensures
            unshuffle_result(old(self)@, final(self)@),
    {
        if !self.shuffled || self.original_items.len() == 0 {
            return;
        }
        let current_id: Option<String> = if self.current < self.items.len() {
            Some(self.items[self.current].id.clone())
        } else {
            None
        };
        let mut restored: Vec<Video> = Vec::new();
        std::mem::swap(&mut restored, &mut self.original_items);
        self.items = restored;
        self.shuffled = false;
        if let Some(id) = current_id {
            self.current = position_of_id(&self.items, &id);
        }
    }

    /// `unshuffle` when shuffled, else `shuffle`.
    pub fn toggle_shuffle(&mut self)
        ensures
            old(self).shuffled ==> unshuffle_result(old(self)@, final(self)@),
            !old(self).shuffled ==> shuffle_result(old(self)@, final(self)@),
    {
        if self.shuffled {
            self.unshuffle();
        } else {
            self.shuffle();
        }
    }
}

/// Shuffling keeps the same videos, and the video that was current is
/// still the current one.
pub proof fn shuffle_keeps_current(before: PlaylistView, after: PlaylistView)
    requires
        shuffle_result(before, after),
        before.current < before.items.len(),
    ensures
        after.items.to_multiset() == before.items.to_multiset(),
        after.current < after.items.len(),
        after.items[after.current as int].id@ == before.items[before.current as int].id@,
{
    if !(before.shuffled || before.items.len() == 0) {
        let x = before.items[before.current as int];
        assert(before.items.contains(x));
        vstd::seq_lib::to_multiset_contains(before.items, x);
        vstd::seq_lib::to_multiset_contains(after.items, x);
        assert(after.items.contains(x));
        let i = choose|i: int| 0 <= i < after.items.len() && after.items[i] == x;
        assert(after.items[i].id@ == x.id@);
    }
}

/// Shuffling and then unshuffling gives back the queue in its old order,
/// with the same video current.
pub proof fn unshuffle_undoes_shuffle(p0: PlaylistView, p1: PlaylistView, p2: PlaylistView)
    requires
        !p0.shuffled,
        p0.items.len() > 0,
        shuffle_result(p0, p1),
        unshuffle_result(p1, p2),
    ensures
        p2.items == p0.items,
        !p2.shuffled,
        p2.original_items == Seq::<Video>::empty(),
        p0.current < p0.items.len() ==> p2.current < p2.items.len() && p2.items[
            p2.current as int].id@ == p0.items[p0.current as int].id@,
{
    if p0.current < p0.items.len() {
        shuffle_keeps_current(p0, p1);
        let x = p0.items[p0.current as int];
        assert(p2.items[p0.current as int].id@ == x.id@);
    }
}

/// `total` seconds as `M:SS`-style text: `--:--` for zero, `MM:SS` below
/// an hour, `H:MM:SS` from an hour on.
pub open spec fn duration_text(total: nat) -> Seq<char> {
    let h = total / 3600;
    let m = (total % 3600) / 60;
    let s = total % 60;
    if total == 0 {
        "--:--"@
    } else if h > 0 {
        decimal(h) + seq![':'] + two_digits(m) + seq![':'] + two_digits(s)
    } else {
        two_digits(m) + seq![':'] + two_digits(s)
    }
}

/// Formats whole seconds as `MM:SS` or `H:MM:SS` (`--:--` for zero).
pub fn format_duration(secs: u64) -> (r: String)
    ensures
        r@ == duration_text(secs as nat),
{
    let total: u64 = secs;
    if total == 0 {
        let r = crate::text::owned("--:--");
        return r;
    }
    let h: u64 = total / 3600;
    let m: u64 = (total % 3600) / 60;
    let s: u64 = total % 60;
    let mut r = String::new();
    if h > 0 {
        push_decimal(&mut r, h);
        push_char(&mut r, ':');
    }
    push_two_digits(&mut r, m);
    push_char(&mut r, ':');
    push_two_digits(&mut r, s);
    r
}

/// A number of tenths as `I.F` (integer part, point, one decimal).
pub open spec fn tenths_text(t: nat) -> Seq<char> {
    decimal(t / 10) + seq!['.', digit(t % 10)]
}

/// A view count as shown: below 1000 in full; else in thousands,
/// millions or billions with one decimal and `k`, `m` or `b`, the quotient
/// taken as a double and printed with `{:.1}` (see `tenths_of_quotient`).
pub open spec fn views_text(n: nat) -> Seq<char> {
    if n < 1000 {
        decimal(n)
    } else if n < 1_000_000 {
        tenths_text(tenths_of_quotient(n, 1000)) + seq!['k']
    } else if n < 1_000_000_000 {
        tenths_text(tenths_of_quotient(n, 1_000_000)) + seq!['m']
    } else {
        tenths_text(tenths_of_quotient(double_of(n), 1_000_000_000)) + seq!['b']
    }
}

/// Formats a view count: `999`, `1.2k`, `3.4m`, `5.6b`.
pub fn format_views(n: u64) -> (r: String)
    ensures
        r@ == views_text(n as nat),
{
    if n < 1000 {
        return decimal_string(n);
    }
    let (t, suffix): (u64, char) = if n < 1_000_000 {
        (quotient_tenths(n as u128, 1000), 'k')
    } else if n < 1_000_000_000 {
        (quotient_tenths(n as u128, 1_000_000), 'm')
    } else {
        let d: u128 = nearest_double(n);
        (quotient_tenths(d, 1_000_000_000), 'b')
    };
    let mut r = String::new();
    push_decimal(&mut r, t / 10);
    push_char(&mut r, '.');
    let d: u8 = (t % 10) as u8;
    push_char(&mut r, (d + 48) as char);
    push_char(&mut r, suffix);
    r
}

/// `next` and `prev` move only the current index and keep it on an item, so
/// any run of them and of `play_at` turns a playlist `p` into
/// `PlaylistView { current: k, ..p }` with `k` on an item.
pub proof fn moves_keep_order(p: PlaylistView)
    requires
        p.current < p.items.len(),
    ensures
        p.advanced() == (PlaylistView { current: p.advanced().current, ..p }),
        p.retreated() == (PlaylistView { current: p.retreated().current, ..p }),
        p.advanced().current < p.items.len(),
        p.retreated().current < p.items.len(),
{
}

/// Unshuffling restores the order from before the shuffle even after the
/// current item was moved in between (`play_at`, `next`, `prev` change only
/// the current index), and the item current at the unshuffle stays current.
pub proof fn unshuffle_after_moves(p0: PlaylistView, p1: PlaylistView, k: usize, p3: PlaylistView)
    requires
        !p0.shuffled,
        p0.items.len() > 0,
        shuffle_result(p0, p1),
        k < p1.items.len(),
        unshuffle_result(PlaylistView { current: k, ..p1 }, p3),
    ensures
        p3.items == p0.items,
        !p3.shuffled,
        p3.original_items == Seq::<Video>::empty(),
        p3.current < p3.items.len(),
        p3.items[p3.current as int].id@ == p1.items[k as int].id@,
{
    let x = p1.items[k as int];
    assert(p1.items.contains(x));
    vstd::seq_lib::to_multiset_contains(p1.items, x);
    vstd::seq_lib::to_multiset_contains(p0.items, x);
    assert(p0.items.contains(x));
    let i = choose|i: int| 0 <= i < p0.items.len() && p0.items[i] == x;
    assert(p3.items[i].id@ == x.id@);
}

} // verus!
