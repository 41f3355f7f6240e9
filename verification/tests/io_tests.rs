use rustyoutube_cli::config::{Config, Settings, State};
use rustyoutube_cli::mpv::{
    get_property_request, load_url_request, reply_error, seek_request, set_pause_request,
    set_volume_request, start_args, start_step, toggled_pause, word_request, MpvArg, StartAction,
    SOCKET_CHECKS, SOCKET_PAUSE_MS,
};
use rustyoutube_cli::visualizer::{contains_text, monitor_device};
use rustyoutube_cli::ytdlp::{
    split_nonempty_lines, video_from_raw, videos_from_entries, RawVideo, Ytdlp,
};

fn s(x: &str) -> String {
    x.to_string()
}

#[test]
fn ytdlp_defaults() {
    let y = Ytdlp::new();
    assert_eq!(y.binary, "yt-dlp");
    assert!(y.extra_args.is_empty());
}

#[test]
fn ytdlp_search_args() {
    let mut y = Ytdlp::new();
    assert_eq!(
        y.search_args("lofi beats", 50),
        vec![
            s("ytsearch50:lofi beats"),
            s("--dump-json"),
            s("--flat-playlist"),
            s("--no-download"),
            s("--ignore-errors"),
            s("--no-warnings"),
        ]
    );
    y.extra_args = vec![s("--proxy"), s("x")];
    let args = y.search_args("q", 7);
    assert_eq!(args[0], "ytsearch7:q");
    assert_eq!(&args[6..], &[s("--proxy"), s("x")]);
}

#[test]
fn ytdlp_stream_args() {
    let y = Ytdlp::new();
    assert_eq!(
        y.stream_args("abc123"),
        vec![
            s("-f"),
            s("bestaudio"),
            s("-g"),
            s("--no-download"),
            s("--ignore-errors"),
            s("--no-warnings"),
            s("https://youtube.com/watch?v=abc123"),
        ]
    );
}

#[test]
fn ytdlp_search_output() {
    assert_eq!(
        Ytdlp::search_output(false, b"", b"  ERROR: no network \n"),
        Err(s("yt-dlp error: ERROR: no network"))
    );
    assert_eq!(
        Ytdlp::search_output(false, b"{\"a\":1}\n", b"warn"),
        Ok(vec![s("{\"a\":1}")])
    );
    assert_eq!(
        Ytdlp::search_output(true, b"one\r\n\ntwo\n\r\nthree", b""),
        Ok(vec![s("one"), s("two"), s("three")])
    );
}

#[test]
fn ytdlp_stream_output() {
    assert_eq!(
        Ytdlp::stream_output(true, b"  https://x/y\n", b"", "id"),
        Ok(s("https://x/y"))
    );
    assert_eq!(
        Ytdlp::stream_output(true, b" \n", b"", "id9"),
        Err(s("yt-dlp mengembalikan URL kosong untuk video id9"))
    );
    assert_eq!(
        Ytdlp::stream_output(false, b"https://x", b"\tboom\n", "id"),
        Err(s("yt-dlp stream error: boom"))
    );
    assert_eq!(Ytdlp::version_output(b"2024.08.06\n"), "2024.08.06");
}

#[test]
fn lines_like_str_lines() {
    for text in ["a\nb", "a\r\nb\r\n", "\n\n", "x\r", "x\ry\n", "", "\r\n", "line\n\r\r\n end "] {
        let expected: Vec<String> =
            text.lines().filter(|l| !l.is_empty()).map(|l| l.to_string()).collect();
        assert_eq!(split_nonempty_lines(text), expected, "text {:?}", text);
    }
}

#[test]
fn raw_entries_to_videos() {
    let raw = RawVideo {
        id: s("i"),
        title: s("t"),
        channel: s("c"),
        duration: Some(125),
        view_count: Some(-4),
        live_status: Some(s("is_upcoming")),
    };
    let v = video_from_raw(raw);
    assert_eq!((v.duration, v.views, v.is_live), (125, 0, true));
    let raw = RawVideo {
        id: s("i"),
        title: s("t"),
        channel: s(""),
        duration: None,
        view_count: Some(1234),
        live_status: Some(s("was_live")),
    };
    let v = video_from_raw(raw);
    assert_eq!((v.duration, v.views, v.is_live), (0, 1234, false));
    let raw = RawVideo {
        id: s("i"),
        title: s("t"),
        channel: s(""),
        duration: None,
        view_count: None,
        live_status: Some(s("is_live")),
    };
    assert!(video_from_raw(raw).is_live);
}

#[test]
fn config_paths() {
    assert_eq!(Config::dir(Some("/home/u")), "/home/u/.config/rustyoutube-cli");
    assert_eq!(Config::dir(Some("/home/u/")), "/home/u/.config/rustyoutube-cli");
    assert_eq!(Config::dir(None), "/tmp/.config/rustyoutube-cli");
    assert_eq!(Config::dir(Some("")), ".config/rustyoutube-cli");
    assert_eq!(
        Config::path(Some("/h")),
        Some(s("/h/.config/rustyoutube-cli/config.toml"))
    );
    assert_eq!(Config::state_path(None), "/tmp/.config/rustyoutube-cli/state.toml");
}

#[test]
fn config_paths_match_pathbuf() {
    for home in ["/home/u", "/home/u/", "", "rel", "/"] {
        let p = std::path::PathBuf::from(home).join(".config").join("rustyoutube-cli");
        assert_eq!(Config::dir(Some(home)), p.to_str().unwrap());
    }
}

#[test]
fn config_merge() {
    let cfg = Config {
        socket: Some(s("/run/mpv.sock")),
        mpv_bin: None,
        ytdlp_bin: Some(s("/opt/yt-dlp")),
        default_volume: Some(70),
    };
    let merged = Config::merge(
        Some(&cfg),
        s("/tmp/rustyoutube-mpv.sock"),
        s("mpv"),
        s("my-yt-dlp"),
    );
    assert_eq!(
        merged,
        Settings { socket: s("/run/mpv.sock"), mpv_bin: s("mpv"), ytdlp_bin: s("my-yt-dlp") }
    );
    let merged = Config::merge(None, s("a"), s("b"), s("c"));
    assert_eq!(merged, Settings { socket: s("a"), mpv_bin: s("b"), ytdlp_bin: s("c") });
}

#[test]
fn initial_volume_order() {
    let cfg = Config { socket: None, mpv_bin: None, ytdlp_bin: None, default_volume: Some(70) };
    assert_eq!(Config::initial_volume(Some(&cfg), Some(State { volume: 20 })), 70);
    let cfg = Config { default_volume: None, ..cfg };
    assert_eq!(Config::initial_volume(Some(&cfg), Some(State { volume: 20 })), 20);
    assert_eq!(Config::initial_volume(None, Some(State { volume: 20 })), 20);
    assert_eq!(Config::initial_volume(None, None), 50);
}

#[test]
fn mpv_requests() {
    assert_eq!(
        start_args("/tmp/s.sock").last().unwrap(),
        "--input-ipc-server=/tmp/s.sock"
    );
    assert_eq!(start_args("x").len(), 9);
    assert_eq!(
        load_url_request("http://u"),
        vec![MpvArg::Text(s("loadfile")), MpvArg::Text(s("http://u")), MpvArg::Text(s("replace"))]
    );
    assert_eq!(
        set_pause_request(true),
        vec![MpvArg::Text(s("set_property")), MpvArg::Text(s("pause")), MpvArg::Flag(true)]
    );
    assert_eq!(
        get_property_request("volume"),
        vec![MpvArg::Text(s("get_property")), MpvArg::Text(s("volume"))]
    );
    assert_eq!(set_volume_request(150)[2], MpvArg::Number(100));
    assert_eq!(set_volume_request(42)[2], MpvArg::Number(42));
    assert_eq!(seek_request(-5)[1], MpvArg::Seconds(-5));
    assert_eq!(word_request("stop"), vec![MpvArg::Text(s("stop"))]);
}

#[test]
fn mpv_replies() {
    assert_eq!(reply_error(None), None);
    assert_eq!(reply_error(Some(s("success"))), None);
    assert_eq!(reply_error(Some(s(""))), None);
    assert_eq!(
        reply_error(Some(s("property unavailable"))),
        Some(s("mpv error: property unavailable"))
    );
    assert!(toggled_pause(Some(false)));
    assert!(!toggled_pause(Some(true)));
    assert!(toggled_pause(None));
}

#[test]
fn monitor_choice() {
    assert!(contains_text("alsa_output.monitor", "monitor"));
    assert!(!contains_text("mon", "monitor"));
    assert!(contains_text("abc", ""));
    let names = vec![None, Some(s("Built-in Mic")), Some(s("Monitor of Speakers")), Some(s("x.monitor"))];
    assert_eq!(monitor_device(&names), Some(2));
    assert_eq!(monitor_device(&vec![Some(s("mic"))]), None);
}

#[test]
fn invalid_utf8_is_replaced() {
    assert_eq!(
        Ytdlp::search_output(true, b"ok\xff\nnext", b""),
        Ok(vec![s("ok\u{fffd}"), s("next")])
    );
    assert_eq!(Ytdlp::version_output(b"\xc3\x28 1.0 "), "\u{fffd}( 1.0");
}

#[test]
fn socket_wait_steps() {
    assert_eq!(start_step(0, true), StartAction::Connect);
    assert_eq!(start_step(49, true), StartAction::Connect);
    assert_eq!(start_step(0, false), StartAction::Retry);
    assert_eq!(start_step(48, false), StartAction::Retry);
    assert_eq!(start_step(49, false), StartAction::GiveUp);
    assert_eq!(start_step(u32::MAX, false), StartAction::GiveUp);
    // 50 looks, 100 ms apart: about 5 s in all
    assert_eq!(SOCKET_CHECKS as u64 * SOCKET_PAUSE_MS, 5000);
    let mut looks = 0;
    let mut attempt = 0;
    loop {
        looks += 1;
        match start_step(attempt, false) {
            StartAction::Retry => attempt += 1,
            StartAction::GiveUp => break,
            StartAction::Connect => unreachable!(),
        }
    }
    assert_eq!(looks, 50);
}

fn raw(id: &str, duration: Option<u64>) -> RawVideo {
    RawVideo {
        id: s(id),
        title: s("t"),
        channel: s("c"),
        duration,
        view_count: Some(7),
        live_status: None,
    }
}

#[test]
fn unparsed_entries_are_skipped() {
    let vs = videos_from_entries(vec![
        None,
        Some(raw("a", Some(3))),
        None,
        Some(raw("b", None)),
        None,
    ]);
    assert_eq!(vs.len(), 2);
    assert_eq!(vs[0], video_from_raw(raw("a", Some(3))));
    assert_eq!(vs[1], video_from_raw(raw("b", None)));
    assert_eq!(vs[1].duration, 0);
    assert!(videos_from_entries(vec![None, None]).is_empty());
    assert!(videos_from_entries(Vec::new()).is_empty());
}
