use rustyoutube_cli::model::{format_duration, format_views, Playlist, RepeatMode, Video};

fn video(id: &str) -> Video {
    Video {
        id: id.to_string(),
        title: format!("title {}", id),
        channel: "chan".to_string(),
        duration: 61,
        views: 5,
        is_live: false,
    }
}

fn videos(ids: &[&str]) -> Vec<Video> {
    ids.iter().map(|i| video(i)).collect()
}

#[test]
fn repeat_mode_cycles_through_three() {
    assert_eq!(RepeatMode::Off.next(), RepeatMode::All);
    assert_eq!(RepeatMode::All.next(), RepeatMode::One);
    assert_eq!(RepeatMode::One.next(), RepeatMode::Off);
    for m in [RepeatMode::Off, RepeatMode::All, RepeatMode::One] {
        assert_eq!(m.next().next().next(), m);
    }
}

#[test]
fn repeat_mode_labels() {
    assert_eq!(RepeatMode::Off.label(), "Off");
    assert_eq!(RepeatMode::All.label(), "All");
    assert_eq!(RepeatMode::One.label(), "One");
}

#[test]
fn format_duration_shapes() {
    assert_eq!(format_duration(0), "--:--");
    assert_eq!(format_duration(5), "00:05");
    assert_eq!(format_duration(65), "01:05");
    assert_eq!(format_duration(599), "09:59");
    assert_eq!(format_duration(3599), "59:59");
    assert_eq!(format_duration(3600), "1:00:00");
    assert_eq!(format_duration(3725), "1:02:05");
    assert_eq!(format_duration(36000 + 59), "10:00:59");
}

#[test]
fn format_views_small_numbers_in_full() {
    assert_eq!(format_views(0), "0");
    assert_eq!(format_views(7), "7");
    assert_eq!(format_views(999), "999");
}

#[test]
fn format_views_suffixes() {
    assert_eq!(format_views(1000), "1.0k");
    assert_eq!(format_views(1234), "1.2k");
    assert_eq!(format_views(1_234_567), "1.2m");
    assert_eq!(format_views(999_999), "1000.0k");
    assert_eq!(format_views(2_500_000_000), "2.5b");
    assert_eq!(format_views(u64::MAX), "18446744073.7b");
}

fn float_views(n: u64) -> String {
    match n {
        0..=999 => n.to_string(),
        1_000..=999_999 => format!("{:.1}k", n as f64 / 1_000.0),
        1_000_000..=999_999_999 => format!("{:.1}m", n as f64 / 1_000_000.0),
        _ => format!("{:.1}b", n as f64 / 1_000_000_000.0),
    }
}

#[test]
fn format_views_agrees_with_float_formatting() {
    let mut n: u64 = 0;
    while n < 1_200_000 {
        assert_eq!(format_views(n), float_views(n), "n = {}", n);
        n += if n < 20_000 { 1 } else { 7 };
    }
    for n in [
        1250u64, 1750, 2250, 1050, 1150, 1950, 999_950, 999_949, 1_050_000, 1_250_000,
        999_950_000, 999_999_999, 1_000_000_000, 1_250_000_000, 1_050_000_000,
        9_007_199_254_740_993, 18_014_398_509_481_985, 12_345_678_901_234_567_890,
        u64::MAX - 1, u64::MAX,
    ] {
        assert_eq!(format_views(n), float_views(n), "n = {}", n);
    }
    let mut x: u64 = 0x9E37_79B9_7F4A_7C15;
    for _ in 0..20_000 {
        x ^= x << 13;
        x ^= x >> 7;
        x ^= x << 17;
        for n in [x, x >> 20, x >> 34, x >> 44, x >> 54] {
            assert_eq!(format_views(n), float_views(n), "n = {}", n);
        }
    }
}

#[test]
fn playlist_new_is_empty() {
    let p = Playlist::new();
    assert_eq!(p.len(), 0);
    assert_eq!(p.current, 0);
    assert!(!p.shuffled);
    assert!(p.original_items.is_empty());
}

#[test]
fn playlist_navigation() {
    let mut p = Playlist::new();
    p.enqueue(videos(&["a", "b", "c"]));
    assert_eq!(p.len(), 3);
    assert_eq!(p.play_at(2).map(|v| v.id.clone()), Some("c".to_string()));
    assert_eq!(p.current, 2);
    assert!(p.play_at(3).is_none());
    assert_eq!(p.current, 2);
    assert!(p.next().is_none());
    assert_eq!(p.current, 2);
    assert_eq!(p.prev().map(|v| v.id.clone()), Some("b".to_string()));
    assert_eq!(p.prev().map(|v| v.id.clone()), Some("a".to_string()));
    assert!(p.prev().is_none());
    assert_eq!(p.current, 0);
    assert_eq!(p.next().map(|v| v.id.clone()), Some("b".to_string()));
    assert_eq!(p.current, 1);
}

#[test]
fn playlist_next_then_prev_returns() {
    let mut p = Playlist::new();
    p.enqueue(videos(&["a", "b", "c", "d"]));
    p.play_at(1);
    p.next();
    p.prev();
    assert_eq!(p.current, 1);
}

#[test]
fn playlist_clear_forgets_everything() {
    let mut p = Playlist::new();
    p.enqueue(videos(&["a", "b"]));
    p.shuffle();
    p.clear();
    assert_eq!(p.len(), 0);
    assert_eq!(p.current, 0);
    assert!(!p.shuffled);
    assert!(p.original_items.is_empty());
}

#[test]
fn shuffle_keeps_videos_and_current() {
    let ids = ["a", "b", "c", "d", "e", "f", "g", "h"];
    let mut p = Playlist::new();
    p.enqueue(videos(&ids));
    p.play_at(3);
    p.shuffle();
    assert!(p.shuffled);
    assert_eq!(p.original_items, videos(&ids));
    assert_eq!(p.items[p.current].id, "d");
    let mut sorted: Vec<String> = p.items.iter().map(|v| v.id.clone()).collect();
    sorted.sort();
    assert_eq!(sorted, ids.iter().map(|s| s.to_string()).collect::<Vec<_>>());
    // a second shuffle while shuffled does nothing
    let before = p.items.clone();
    p.shuffle();
    assert_eq!(p.items, before);
}

#[test]
fn unshuffle_restores_order() {
    let ids = ["a", "b", "c", "d", "e"];
    let mut p = Playlist::new();
    p.enqueue(videos(&ids));
    p.play_at(4);
    p.toggle_shuffle();
    p.toggle_shuffle();
    assert!(!p.shuffled);
    assert_eq!(p.items, videos(&ids));
    assert_eq!(p.current, 4);
    assert!(p.original_items.is_empty());
}

#[test]
fn unshuffle_drops_items_enqueued_while_shuffled() {
    let mut p = Playlist::new();
    p.enqueue(videos(&["a", "b"]));
    p.shuffle();
    p.enqueue(videos(&["z"]));
    assert_eq!(p.len(), 3);
    p.unshuffle();
    assert_eq!(p.items, videos(&["a", "b"]));
}

#[test]
fn shuffle_of_empty_playlist_does_nothing() {
    let mut p = Playlist::new();
    p.shuffle();
    assert!(!p.shuffled);
    p.unshuffle();
    assert!(!p.shuffled);
}
