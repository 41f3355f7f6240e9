use rustyoutube_cli::app::{App, InputMode, Key, KeyCode};
use rustyoutube_cli::model::Video;
use rustyoutube_cli::float::{filled_cells_of, whole_part_of};
use rustyoutube_cli::screen::{
    cut_by_widths, column_widths, footer_line, header_line, help_text, mode_tag, on_off, progress, result_line,
    scrollbar, search_cursor, spectrum, status_time, truncate, visible_window, volume_bar,
    volume_text,
};

fn video(title: &str, channel: &str, duration: u64, views: u64, is_live: bool) -> Video {
    Video {
        id: "id".to_string(),
        title: title.to_string(),
        channel: channel.to_string(),
        duration,
        views,
        is_live,
    }
}

#[test]
fn truncate_short_strings_unchanged() {
    assert_eq!(truncate("hello", 10), "hello");
    assert_eq!(truncate("hello", 5), "hello");
    assert_eq!(truncate("hello world", 1), "hello world");
    assert_eq!(truncate("", 0), "");
}

#[test]
fn truncate_ascii() {
    assert_eq!(truncate("hello world", 6), "hello…");
    assert_eq!(truncate("abc", 2), "a…");
}

#[test]
fn truncate_wide_characters() {
    // each of these takes two columns
    assert_eq!(truncate("日本語のタイトル", 7), "日本語…");
    assert_eq!(truncate("日本語のタイトル", 8), "日本語…");
    assert_eq!(truncate("日本語のタイトル", 9), "日本語の…");
}

#[test]
fn spectrum_blocks() {
    assert_eq!(spectrum(&vec![0, 1, 2, 3, 4, 5, 6, 7]), "▁▂▃▄▅▆▇█");
    assert_eq!(spectrum(&vec![]), "");
}

#[test]
fn volume_bars() {
    assert_eq!(volume_bar(0), " [--------------]");
    assert_eq!(volume_bar(50), " [#######-------]");
    assert_eq!(volume_bar(100), " [##############]");
    assert_eq!(volume_bar(255), " [###################################]");
}

fn bits(x: f64) -> u64 {
    x.to_bits()
}

/// The now-playing line as the f64 formula draws it.
fn float_progress(paused: bool, position: f64, duration: f64, max_w: usize) -> String {
    let icon = if paused { " ⏸" } else { " ▶" };
    if duration > 0.0 {
        let pct = (position / duration).clamp(0.0, 1.0);
        let bar_w = max_w.saturating_sub(16).max(4);
        let filled = (pct * bar_w as f64) as usize;
        let empty = bar_w.saturating_sub(filled);
        format!(
            " {} [{}{}] {:02}:{:02}",
            icon,
            "█".repeat(filled),
            "░".repeat(empty),
            (position as u64) / 60,
            (position as u64) % 60
        )
    } else {
        format!(" {} Playing...", icon)
    }
}

#[test]
fn progress_lines() {
    assert_eq!(progress(false, bits(0.0), bits(0.0), 30), "  ▶ Playing...");
    assert_eq!(progress(true, bits(0.0), bits(0.0), 30), "  ⏸ Playing...");
    // 14 cells, half played
    assert_eq!(progress(false, bits(65.0), bits(130.0), 30), "  ▶ [███████░░░░░░░] 01:05");
    // narrow box: 4 cells
    assert_eq!(progress(true, bits(200.0), bits(100.0), 10), "  ⏸ [████] 03:20");
    assert_eq!(progress(false, bits(6000.0), bits(7000.0), 20), "  ▶ [███░] 100:00");
    // the ratio of the doubles, not of whole milliseconds
    assert_eq!(progress(false, bits(0.5009), bits(1.0018), 20), "  ▶ [██░░] 00:00");
    // a length under a millisecond still draws a bar
    assert_eq!(progress(false, bits(0.0), bits(0.0005), 20), "  ▶ [░░░░] 00:00");
    // NaN, negative and infinite values
    assert_eq!(progress(false, bits(f64::NAN), bits(10.0), 20), "  ▶ [░░░░] 00:00");
    assert_eq!(progress(false, bits(-4.0), bits(10.0), 20), "  ▶ [░░░░] 00:00");
    assert_eq!(progress(false, bits(f64::INFINITY), bits(10.0), 20), "  ▶ [████] 307445734561825860:15");
    assert_eq!(progress(false, bits(5.0), bits(f64::INFINITY), 20), "  ▶ [░░░░] 00:05");
    assert_eq!(progress(false, bits(5.0), bits(f64::NAN), 20), "  ▶ Playing...");
    assert_eq!(progress(false, bits(5.0), bits(-1.0), 20), "  ▶ Playing...");
}

#[test]
fn progress_follows_float_formula() {
    let values = [
        0.0, -0.0, 1e-300, 5e-324, 0.001, 0.1, 0.3, 0.5009, 1.0018, 1.0, 2.5, 59.999,
        60.0, 65.4, 99.99, 100.0, 130.0, 1234.5678, 3600.0, 1e10, 1e19, 1e20, -2.0,
        f64::NAN, f64::INFINITY, f64::NEG_INFINITY, f64::MIN_POSITIVE, f64::MAX,
    ];
    for &p in values.iter() {
        for &d in values.iter() {
            for max_w in [0usize, 10, 20, 21, 30, 37, 64, 200] {
                assert_eq!(
                    progress(false, bits(p), bits(d), max_w as u16),
                    float_progress(false, p, d, max_w),
                );
            }
        }
    }
    let mut x: f64 = 0.0;
    while x < 300.0 {
        for &d in [0.7, 3.0, 7.0, 29.97, 300.0].iter() {
            for max_w in [20usize, 33, 45, 80] {
                assert_eq!(
                    progress(true, bits(x), bits(d), max_w as u16),
                    float_progress(true, x, d, max_w),
                );
            }
        }
        x += 0.0137;
    }
}

#[test]
fn column_widths_from_list_width() {
    assert_eq!(column_widths(104), (45, 25));
    assert_eq!(column_widths(3), (0, 0));
    assert_eq!(column_widths(24), (9, 5));
}

#[test]
fn window_clamps() {
    assert_eq!(visible_window(0, 10, 4), (0, 4));
    assert_eq!(visible_window(8, 10, 4), (8, 2));
    assert_eq!(visible_window(20, 10, 4), (9, 1));
    assert_eq!(visible_window(0, 0, 4), (0, 0));
    assert_eq!(visible_window(3, 10, 0), (3, 0));
}

#[test]
fn header_layout() {
    assert_eq!(
        header_line(10, 7),
        format!(
            "{:^7} {:^10} {:^7} {:^9} {:^10}",
            "No", "Title", "Channel", "Duration", "Views"
        )
    );
}

#[test]
fn row_layout() {
    let v = video("A fairly long title here", "Channel name", 3725, 1_234_567, false);
    let expected = format!(
        "{:^7} {:<12} {:<8} {:>11} {:>12}",
        " [  5]", "A fairly lo…", "Channel…", "[1:02:05]", "[    1.2m]"
    );
    assert_eq!(result_line(4, &v, false, 12, 8), expected);
    let live = video("Live", "C", 0, 5, true);
    let expected = format!(
        "{:^7} {:<12} {:<8} {:>11} {:>12}",
        " ▶ 12 ", "Live", "C", "LIVE    ", "[       5]"
    );
    assert_eq!(result_line(11, &live, true, 12, 8), expected);
}

#[test]
fn footers() {
    assert_eq!(footer_line(0, 5, 5), " Results 1-5 of 5 ");
    assert_eq!(footer_line(2, 3, 9), " Results 3-5 of 9  (+4 more below) ");
    assert_eq!(footer_line(0, 0, 0), " No results ");
}

#[test]
fn scrollbars() {
    assert_eq!(scrollbar(0, 0, 10), None);
    assert_eq!(scrollbar(0, 5, 2), None);
    assert_eq!(scrollbar(0, 5, 10), Some((7, 0)));
    // 20 results, 8 visible: max scroll 12, 7 track cells
    assert_eq!(scrollbar(6, 20, 10), Some((7, 3)));
    assert_eq!(scrollbar(12, 20, 10), Some((7, 7)));
    assert_eq!(scrollbar(100, 20, 10), Some((7, 11)));
    // 15 / 22 * 22 lands just under 15 in floating point
    assert_eq!(scrollbar(15, 45, 25), Some((22, 14)));
}

#[test]
fn scrollbar_thumb_follows_float_ratio() {
    for height in 3u16..60 {
        let vis = (height - 2) as usize;
        let track = (height - 3) as usize;
        for total in (vis + 1)..(vis + 90) {
            for offset in 0..(total + 2) {
                let scroll = offset.min(total - 1);
                let ratio = scroll as f64 / (total - vis) as f64;
                let expected = (ratio * track as f64) as u16 as usize;
                assert_eq!(scrollbar(offset, total, height), Some((track, expected)));
            }
        }
    }
    let huge: usize = 1 << 60;
    let ratio = (huge - 1) as f64 / (huge - 8) as f64;
    assert_eq!(scrollbar(huge, huge, 10), Some((7, (ratio * 7.0) as u16 as usize)));
}

#[test]
fn status_texts() {
    assert_eq!(status_time(bits(65.4), bits(3725.0), false), "01:05 / 1:02:05");
    assert_eq!(status_time(bits(0.0), bits(0.0), true), "--:-- / --:-- [PAUSED]");
    assert_eq!(status_time(bits(-3.0), bits(f64::NAN), false), "--:-- / --:--");
    assert_eq!(status_time(bits(0.999), bits(1e30), false), "--:-- / 5124095576030431:00:15");
    assert_eq!(volume_text(42), "Vol: 42%");
    assert_eq!(mode_tag(InputMode::Search), " SEARCH ");
    assert_eq!(mode_tag(InputMode::Normal), " NORMAL ");
    assert_eq!(search_cursor(InputMode::Search), "█");
    assert_eq!(search_cursor(InputMode::Normal), "");
    assert_eq!(on_off(true), "On");
    assert_eq!(on_off(false), "Off");
    assert!(help_text(InputMode::Search).starts_with(" [Enter] Search"));
    assert!(help_text(InputMode::Normal).starts_with(" [Enter/Space] Play"));
}

#[test]
fn app_texts() {
    let mut app = App::with_config(50);
    assert_eq!(app.search_label(), "  Search: ");
    assert_eq!(app.results_message().as_deref(), Some("Type a query and press Enter"));
    app.handle_key(Key { code: KeyCode::Char('q'), modifiers: 0 });
    app.handle_key(Key { code: KeyCode::Enter, modifiers: 0 });
    assert_eq!(app.results_message().as_deref(), Some("Searching..."));
    app.on_search_result(vec![video("a", "b", 1, 1, false), video("c", "d", 1, 1, false)], None);
    assert_eq!(app.search_label(), "  Search Results 'q' ");
    assert_eq!(app.results_message(), None);
    assert!(app.has_next());
    assert!(!app.has_prev());
    assert!(!app.is_playing_row(0));
    app.error = Some("bad".to_string());
    assert_eq!(app.results_message().as_deref(), Some("bad"));
}

#[test]
fn cut_by_given_widths() {
    // widths handed in directly
    assert_eq!(cut_by_widths("abcdef", 6, &vec![Some(1); 6], 6), "abcdef");
    assert_eq!(cut_by_widths("abcdef", 6, &vec![Some(1); 6], 4), "abc…");
    assert_eq!(cut_by_widths("abcdef", 12, &vec![Some(2); 6], 7), "abc…");
    assert_eq!(cut_by_widths("a\u{7}bc", 3, &vec![Some(1), None, Some(1), Some(1)], 2), "a\u{7}…");
    assert_eq!(cut_by_widths("abc", 9, &vec![Some(1); 3], 1), "abc");
}

#[test]
fn whole_part_matches_cast() {
    let values = [
        0.0, -0.0, 0.5, 1.0, 1.999, 59.9, 65.4, 4503599627370495.5, 9007199254740993.0,
        18446744073709549568.0, 18446744073709551616.0, 1e300, -1.5, 5e-324,
        f64::NAN, f64::INFINITY, f64::NEG_INFINITY,
    ];
    for &x in values.iter() {
        assert_eq!(whole_part_of(x.to_bits()), x as u64);
    }
    assert_eq!(filled_cells_of(7.0f64.to_bits(), 14.0f64.to_bits(), 10), 5);
    assert_eq!(filled_cells_of(1.0f64.to_bits(), 3.0f64.to_bits(), 3), 1);
}
