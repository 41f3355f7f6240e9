use rustyoutube_cli::app::{App, Command, InputMode, Key, KeyCode, PlayContext, View, CONTROL};
use rustyoutube_cli::app::unseen_videos;
use rustyoutube_cli::model::{RepeatMode, Video};

fn video(id: &str) -> Video {
    Video {
        id: id.to_string(),
        title: format!("title {}", id),
        channel: "chan".to_string(),
        duration: 100,
        views: 10,
        is_live: false,
    }
}

fn videos(n: usize) -> Vec<Video> {
    (0..n).map(|i| video(&format!("v{}", i))).collect()
}

fn key(code: KeyCode) -> Key {
    Key { code, modifiers: 0 }
}

fn ch(c: char) -> Key {
    key(KeyCode::Char(c))
}

/// A player in normal mode holding `n` results.
fn with_results(n: usize) -> App {
    let mut app = App::with_config(50);
    for c in "q".chars() {
        app.handle_key(ch(c));
    }
    assert_eq!(app.handle_key(key(KeyCode::Enter)), vec![Command::Search]);
    app.on_search_result(videos(n), None);
    app
}

#[test]
fn with_config_caps_volume() {
    let app = App::with_config(150);
    assert_eq!(app.volume, 100);
    assert_eq!(app.muted_volume, 100);
    let app = App::with_config(40);
    assert_eq!(app.volume, 40);
    assert_eq!(app.input_mode, InputMode::Search);
    assert_eq!(app.view, View::Search);
    assert_eq!((app.width, app.height), (80, 24));
    assert_eq!(app.repeat, RepeatMode::Off);
}

#[test]
fn typing_and_editing_the_query() {
    let mut app = App::with_config(50);
    for c in "lofi".chars() {
        assert!(app.handle_key(ch(c)).is_empty());
    }
    assert_eq!(app.query, "lofi");
    app.handle_key(key(KeyCode::Backspace));
    assert_eq!(app.query, "lof");
    // control-modified characters are not typed
    app.handle_key(Key { code: KeyCode::Char('a'), modifiers: CONTROL });
    assert_eq!(app.query, "lof");
    // Esc clears a non-empty query, then leaves the search box
    app.handle_key(key(KeyCode::Esc));
    assert_eq!(app.query, "");
    assert_eq!(app.input_mode, InputMode::Search);
    app.handle_key(key(KeyCode::Esc));
    assert_eq!(app.input_mode, InputMode::Normal);
    // '/' comes back to the search box
    app.handle_key(ch('/'));
    assert_eq!(app.input_mode, InputMode::Search);
}

#[test]
fn ctrl_c_quits_in_both_modes() {
    let mut app = App::with_config(50);
    let quit = Key { code: KeyCode::Char('c'), modifiers: CONTROL };
    assert_eq!(app.handle_key(quit), vec![Command::Quit]);
    app.input_mode = InputMode::Normal;
    assert_eq!(app.handle_key(quit), vec![Command::Quit]);
    // Control+Shift+c is not Control-C
    let other = Key { code: KeyCode::Char('c'), modifiers: CONTROL | 1 };
    assert_ne!(app.handle_key(other), vec![Command::Quit]);
}

#[test]
fn enter_starts_a_search() {
    let mut app = App::with_config(50);
    assert!(app.handle_key(key(KeyCode::Enter)).is_empty());
    app.handle_key(ch('x'));
    app.error = Some("old".to_string());
    assert_eq!(app.handle_key(key(KeyCode::Enter)), vec![Command::Search]);
    assert!(app.searching);
    assert_eq!(app.search_query, "x");
    assert_eq!(app.error, None);
    // no second search while one runs
    assert!(app.handle_key(key(KeyCode::Enter)).is_empty());
}

#[test]
fn first_answer_fills_results_and_playlist() {
    let app = with_results(5);
    assert!(!app.searching);
    assert_eq!(app.results.len(), 5);
    assert_eq!(app.playlist.items, app.results);
    assert_eq!(app.input_mode, InputMode::Normal);
    assert_eq!(app.cursor, 0);
}

#[test]
fn empty_answers_give_messages() {
    let mut app = App::with_config(50);
    app.handle_key(ch('q'));
    app.handle_key(key(KeyCode::Enter));
    app.on_search_result(vec![], Some("boom".to_string()));
    assert_eq!(app.error.as_deref(), Some("No results found"));
    assert!(!app.searching);
    let mut app = with_results(2);
    assert_eq!(app.handle_key(ch('l')), vec![Command::LoadMore]);
    app.on_search_result(vec![], None);
    assert_eq!(app.error.as_deref(), Some("No more results"));
}

#[test]
fn load_more_appends_to_results_and_playlist() {
    let mut app = with_results(2);
    assert_eq!(app.handle_key(ch('L')), vec![Command::LoadMore]);
    assert!(app.searching);
    // no second request while one runs
    assert!(app.handle_key(ch('l')).is_empty());
    let known = app.known_ids();
    assert_eq!(known, vec!["v0".to_string(), "v1".to_string()]);
    let fetched = vec![video("v1"), video("new"), video("v0"), video("new2")];
    let fresh = unseen_videos(&known, fetched);
    assert_eq!(fresh, vec![video("new"), video("new2")]);
    app.on_search_result(fresh, None);
    assert_eq!(app.results.len(), 4);
    assert_eq!(app.playlist.items, app.results);
    assert_eq!(app.input_mode, InputMode::Normal);
}

#[test]
fn navigation_moves_cursor_and_scroll() {
    let mut app = with_results(30);
    app.on_resize(100, 10); // 5 visible rows
    assert_eq!(app.visible_height(), 5);
    app.handle_key(key(KeyCode::Down));
    assert_eq!((app.cursor, app.scroll_offset), (1, 0));
    for _ in 0..4 {
        app.handle_key(key(KeyCode::Down));
    }
    assert_eq!((app.cursor, app.scroll_offset), (5, 0));
    app.handle_key(key(KeyCode::Down));
    assert_eq!((app.cursor, app.scroll_offset), (6, 1));
    app.handle_key(key(KeyCode::PageDown));
    assert_eq!((app.cursor, app.scroll_offset), (11, 6));
    app.handle_key(key(KeyCode::End));
    assert_eq!((app.cursor, app.scroll_offset), (29, 24));
    app.handle_key(key(KeyCode::Down));
    assert_eq!(app.cursor, 29);
    app.handle_key(key(KeyCode::PageDown));
    assert_eq!((app.cursor, app.scroll_offset), (29, 24));
    app.handle_key(key(KeyCode::PageUp));
    assert_eq!((app.cursor, app.scroll_offset), (24, 19));
    app.handle_key(key(KeyCode::Home));
    assert_eq!((app.cursor, app.scroll_offset), (0, 0));
    app.handle_key(key(KeyCode::Up));
    assert_eq!(app.cursor, 0);
    app.cursor = 3;
    app.scroll_offset = 3;
    app.handle_key(key(KeyCode::Up));
    assert_eq!((app.cursor, app.scroll_offset), (2, 2));
    app.handle_key(key(KeyCode::PageUp));
    assert_eq!((app.cursor, app.scroll_offset), (0, 0));
}

#[test]
fn default_terminal_shows_nineteen_rows() {
    let app = App::with_config(50);
    assert_eq!(app.visible_height(), 19);
}

#[test]
fn cursor_stays_in_view_while_navigating() {
    let mut app = with_results(40);
    app.on_resize(80, 12);
    let rows = app.visible_height();
    let keys = [
        KeyCode::Down, KeyCode::Down, KeyCode::PageDown, KeyCode::Down, KeyCode::PageDown,
        KeyCode::PageDown, KeyCode::Up, KeyCode::PageUp, KeyCode::End, KeyCode::PageUp,
        KeyCode::Up, KeyCode::Up, KeyCode::PageUp, KeyCode::PageUp, KeyCode::Home,
        KeyCode::PageDown, KeyCode::PageDown, KeyCode::PageDown, KeyCode::PageDown,
        KeyCode::PageDown, KeyCode::PageDown, KeyCode::PageDown,
    ];
    for k in keys {
        app.handle_key(key(k));
        assert!(app.scroll_offset <= app.cursor, "{:?}", k);
        assert!(app.cursor <= app.scroll_offset + rows, "{:?}", k);
        assert!(app.cursor < app.results.len());
    }
}

#[test]
fn small_terminal_keeps_one_row() {
    let mut app = App::with_config(50);
    app.on_resize(80, 3);
    assert_eq!(app.visible_height(), 1);
}

#[test]
fn enter_plays_the_result_under_the_cursor() {
    let mut app = with_results(3);
    app.handle_key(key(KeyCode::Down));
    app.autonext_cooldown = 7;
    let cmds = app.handle_key(key(KeyCode::Enter));
    assert_eq!(cmds, vec![Command::Play(video("v1"), PlayContext::Key)]);
    assert_eq!(app.playlist.current, 1);
    assert_eq!(app.autonext_cooldown, 0);
    app.on_track_started(video("v1"));
    let t = app.track.clone().unwrap();
    assert_eq!(t.video, video("v1"));
    assert_eq!((t.position, t.duration, t.volume, t.paused), (0, 0, 50, false));
    // with a track, space toggles pause
    assert_eq!(app.handle_key(ch(' ')), vec![Command::TogglePause]);
}

#[test]
fn next_and_prev_follow_the_playlist() {
    let mut app = with_results(3);
    assert_eq!(app.handle_key(ch('n')), vec![Command::Play(video("v1"), PlayContext::Key)]);
    assert_eq!((app.playlist.current, app.cursor), (1, 1));
    assert_eq!(app.handle_key(ch('n')), vec![Command::Play(video("v2"), PlayContext::Key)]);
    assert!(app.handle_key(ch('n')).is_empty());
    assert_eq!(app.handle_key(ch('p')), vec![Command::Play(video("v1"), PlayContext::Key)]);
    assert_eq!(app.cursor, 1);
}

#[test]
fn volume_keys_clamp() {
    let mut app = App::with_config(98);
    app.input_mode = InputMode::Normal;
    assert_eq!(app.handle_key(ch('+')), vec![Command::SetVolume(100)]);
    assert_eq!(app.handle_key(key(KeyCode::F(3))), vec![Command::SetVolume(100)]);
    assert_eq!(app.handle_key(ch('-')), vec![Command::SetVolume(95)]);
    app.volume = 3;
    assert_eq!(app.handle_key(key(KeyCode::F(2))), vec![Command::SetVolume(0)]);
    // also in the search box
    app.input_mode = InputMode::Search;
    assert_eq!(app.handle_key(key(KeyCode::F(3))), vec![Command::SetVolume(5)]);
    assert_eq!(app.volume, 5);
}

#[test]
fn volume_up_then_down_restores() {
    let mut app = App::with_config(40);
    app.input_mode = InputMode::Normal;
    app.handle_key(ch('='));
    app.handle_key(ch('-'));
    assert_eq!(app.volume, 40);
}

#[test]
fn mute_then_unmute_restores() {
    let mut app = App::with_config(60);
    assert_eq!(app.handle_key(key(KeyCode::F(1))), vec![Command::ToggleMute]);
    assert_eq!(app.apply_mute(60), vec![Command::SetVolume(0)]);
    assert_eq!((app.volume, app.muted_volume), (0, 60));
    assert_eq!(app.apply_mute(0), vec![Command::SetVolume(60)]);
    assert_eq!(app.volume, 60);
    // nothing remembered: 30
    app.muted_volume = 0;
    app.volume = 0;
    assert_eq!(app.apply_mute(0), vec![Command::SetVolume(30)]);
}

#[test]
fn seek_and_stop_need_a_track() {
    let mut app = with_results(2);
    assert!(app.handle_key(key(KeyCode::Left)).is_empty());
    app.handle_key(key(KeyCode::Enter));
    app.on_track_started(video("v0"));
    assert_eq!(app.handle_key(key(KeyCode::Left)), vec![Command::Seek(-5)]);
    assert_eq!(app.handle_key(key(KeyCode::Right)), vec![Command::Seek(5)]);
    assert_eq!(app.handle_key(ch('s')), vec![Command::Stop]);
    assert!(app.track.is_none());
}

#[test]
fn repeat_and_shuffle_keys() {
    let mut app = with_results(6);
    app.handle_key(ch('r'));
    assert_eq!(app.repeat, RepeatMode::All);
    app.handle_key(ch('R'));
    assert_eq!(app.repeat, RepeatMode::One);
    app.handle_key(ch('r'));
    assert_eq!(app.repeat, RepeatMode::Off);
    assert!(app.handle_key(ch('x')).is_empty());
    assert!(app.playlist.shuffled);
    assert_eq!(app.playlist.items.len(), 6);
    app.handle_key(ch('X'));
    assert!(!app.playlist.shuffled);
    assert_eq!(app.playlist.items, app.results);
}

#[test]
fn tick_and_poll() {
    let mut app = with_results(2);
    assert!(!app.on_tick(Some(vec![1, 2, 7])));
    assert_eq!(app.tick, 1);
    assert_eq!(app.eq_bars, vec![1, 2, 7]);
    app.on_tick(None);
    assert_eq!(app.eq_bars, vec![1, 2, 7]);
    app.tick = u64::MAX;
    app.on_tick(None);
    assert_eq!(app.tick, 0);
    // no track: polling changes nothing
    app.on_poll(Some(1), Some(2), Some(true), Some(9));
    assert_eq!(app.volume, 50);
    app.handle_key(key(KeyCode::Enter));
    app.on_track_started(video("v0"));
    assert!(app.on_tick(None));
    app.on_poll(Some(1500), None, Some(true), Some(70));
    let t = app.track.clone().unwrap();
    assert_eq!((t.position, t.duration, t.paused, t.volume), (1500, 0, true, 70));
    assert_eq!(app.volume, 70);
}

#[test]
fn end_of_track_moves_on() {
    let mut app = with_results(3);
    app.handle_key(key(KeyCode::Enter));
    app.on_track_started(video("v0"));
    assert!(app.eof_check());
    assert!(app.on_eof(false).is_empty());
    assert_eq!(app.on_eof(true), vec![Command::Play(video("v1"), PlayContext::AutoNext)]);
    assert_eq!((app.playlist.current, app.cursor, app.autonext_cooldown), (1, 1, 10));
    // cooldown counts down before the next check
    for left in (0..10).rev() {
        assert!(!app.eof_check());
        assert_eq!(app.autonext_cooldown, left);
    }
    assert!(app.eof_check());
    // paused or live tracks are not asked about
    app.on_poll(None, None, Some(true), None);
    assert!(!app.eof_check());
}

#[test]
fn end_of_last_track_stops() {
    let mut app = with_results(2);
    app.handle_key(ch('n'));
    app.on_track_started(video("v1"));
    assert_eq!(app.on_eof(true), vec![Command::Stop]);
    assert!(app.track.is_none());
    assert_eq!(app.autonext_cooldown, 10);
}

#[test]
fn repeat_modes_at_end_of_track() {
    let mut app = with_results(3);
    app.handle_key(ch('n'));
    app.on_track_started(video("v1"));
    app.repeat = RepeatMode::One;
    assert_eq!(app.on_eof(true), vec![Command::Play(video("v1"), PlayContext::RepeatOne)]);
    app.repeat = RepeatMode::All;
    assert_eq!(app.on_eof(true), vec![Command::Play(video("v0"), PlayContext::RepeatAll)]);
    assert_eq!(app.playlist.current, 0);
}

#[test]
fn play_errors() {
    let mut app = with_results(2);
    assert!(app.on_play_error(PlayContext::Key, "x"));
    assert_eq!(app.error, None);
    assert!(!app.on_play_error(PlayContext::AutoNext, "gone"));
    assert_eq!(app.error.as_deref(), Some("auto-next: gone"));
    app.on_play_error(PlayContext::RepeatOne, "a");
    assert_eq!(app.error.as_deref(), Some("auto-repeat-one: a"));
    app.on_play_error(PlayContext::RepeatAll, "b");
    assert_eq!(app.error.as_deref(), Some("auto-repeat-all: b"));
}

#[test]
fn search_box_navigation_only_when_idle() {
    let mut app = with_results(4);
    app.input_mode = InputMode::Search;
    app.handle_key(key(KeyCode::Down));
    assert_eq!(app.cursor, 1);
    app.searching = true;
    app.handle_key(key(KeyCode::Down));
    assert_eq!(app.cursor, 1);
}

#[test]
fn new_search_with_results_appends() {
    let mut app = with_results(2);
    app.handle_key(ch('/'));
    app.handle_key(ch('z'));
    assert_eq!(app.handle_key(key(KeyCode::Enter)), vec![Command::Search]);
    assert_eq!(app.search_query, "qz");
    app.on_search_result(vec![video("w")], None);
    assert_eq!(app.results.len(), 3);
}

#[test]
fn mpv_start_failure_is_shown() {
    let mut app = App::with_config(50);
    app.on_mpv_start_error("no such file");
    assert_eq!(app.error.as_deref(), Some("mpv: no such file"));
}
