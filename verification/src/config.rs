//! Settings: where the configuration and saved state live, how the
//! configuration file fills in command-line defaults, and the starting
//! volume.
use vstd::prelude::*;

use crate::text::{owned, push_char, push_str};

verus! {

/// The configuration file's contents (`config.toml`).
#[derive(Debug, Clone, PartialEq, Eq)]
pub struct Config {
    pub socket: Option<String>,
    pub mpv_bin: Option<String>,
    pub ytdlp_bin: Option<String>,
    pub default_volume: Option<u8>,
}

/// State kept between runs (`state.toml`).
#[derive(Debug, Clone, Copy, PartialEq, Eq, Structural)]
pub struct State {
    pub volume: u8,
}

/// `PathBuf::join` of a relative component: a separator goes between
/// unless `base` is empty or already ends with one.
pub open spec fn join(base: Seq<char>, part: Seq<char>) -> Seq<char> {
    if base.len() == 0 || base.last() == '/' {
        base + part
    } else {
        base + seq!['/'] + part
    }
}

fn push_component(path: &mut String, part: &str)
    ensures
        final(path)@ == join(old(path)@, part@),
{
    let cs = crate::text::chars_of(path.as_str());
    if cs.len() > 0 && cs[cs.len() - 1] != '/' {
        push_char(path, '/');
    }
    push_str(path, part);
}

/// The home directory to use: `$HOME`, or `/tmp` when it is unset.
pub open spec fn home_or_tmp(home: Option<Seq<char>>) -> Seq<char> {
    match home {
        Some(h) => h,
        None => "/tmp"@,
    }
}

/// `home/.config/rustyoutube-cli`.
pub open spec fn config_dir(home: Option<Seq<char>>) -> Seq<char> {
    join(join(home_or_tmp(home), ".config"@), "rustyoutube-cli"@)
}

/// View of an optional string slice.
pub open spec fn str_view(s: Option<&str>) -> Option<Seq<char>> {
    match s {
        Some(t) => Some(t@),
        None => None,
    }
}

/// Which setting wins: the command line's, unless it is still the default
/// and the configuration file gives one.
pub open spec fn choose_setting(cli: Seq<char>, default: Seq<char>, file: Option<Seq<char>>) -> Seq<
    char,
> {
    if cli == default && file is Some {
        file->0
    } else {
        cli
    }
}

/// Settings after the configuration file has been applied.
#[derive(Debug, Clone, PartialEq, Eq)]
pub struct Settings {
    pub socket: String,
    pub mpv_bin: String,
    pub ytdlp_bin: String,
}

fn same(s: &String, t: &str) -> (b: bool)
    ensures
        b == (s@ == t@),
{
    let a = owned(t);
    *s == a
}

fn pick(cli: String, default: &str, file: &Option<String>) -> (r: String)
    ensures
        r@ == choose_setting(cli@, default@, crate::app::opt_view(*file)),
{
    if same(&cli, default) {
        match file {
            Some(f) => {
                return f.clone();
            },
            None => {},
        }
    }
    cli
}

impl Config {
    /// `$HOME/.config/rustyoutube-cli`, with `/tmp` for an unset `$HOME`.
    pub fn dir(home: Option<&str>) -> (d: String)
        ensures
            d@ == config_dir(str_view(home)),
    {
        let mut d = match home {
            Some(h) => owned(h),
            None => owned("/tmp"),
        };
        push_component(&mut d, ".config");
        push_component(&mut d, "rustyoutube-cli");
        d
    }

    /// The configuration file: `config.toml` in `dir`.
    pub fn path(home: Option<&str>) -> (p: Option<String>)
        ensures
            p matches Some(q) && q@ == join(config_dir(str_view(home)), "config.toml"@),
    {
        let mut d = Self::dir(home);
        push_component(&mut d, "config.toml");
        Some(d)
    }

    /// The saved state: `state.toml` in `dir`.
    pub fn state_path(home: Option<&str>) -> (p: String)
        ensures
            p@ == join(config_dir(str_view(home)), "state.toml"@),
    {
        let mut d = Self::dir(home);
        push_component(&mut d, "state.toml");
        d
    }

    /// Applies the configuration file to the command-line settings: each
    /// setting still at its default takes the file's value, if any.
    pub fn merge(cfg: Option<&Config>, socket: String, mpv_bin: String, ytdlp_bin: String) -> (s:
        Settings)
        ensures
            cfg is None ==> s.socket@ == socket@ && s.mpv_bin@ == mpv_bin@ && s.ytdlp_bin@
                == ytdlp_bin@,
            cfg matches Some(c) ==> {
                &&& s.socket@ == choose_setting(
                    socket@,
                    "/tmp/rustyoutube-mpv.sock"@,
                    crate::app::opt_view(c.socket),
                )
                &&& s.mpv_bin@ == choose_setting(mpv_bin@, "mpv"@, crate::app::opt_view(c.mpv_bin))
                &&& s.ytdlp_bin@ == choose_setting(
                    ytdlp_bin@,
                    "yt-dlp"@,
                    crate::app::opt_view(c.ytdlp_bin),
                )
            },
    {
        match cfg {
            Some(c) => Settings {
                socket: pick(socket, "/tmp/rustyoutube-mpv.sock", &c.socket),
                mpv_bin: pick(mpv_bin, "mpv", &c.mpv_bin),
                ytdlp_bin: pick(ytdlp_bin, "yt-dlp", &c.ytdlp_bin),
            },
            None => Settings { socket, mpv_bin, ytdlp_bin },
        }
    }

    /// The starting volume: the configuration's, else the saved one, else 50.
    pub fn initial_volume(cfg: Option<&Config>, saved: Option<State>) -> (v: u8)
        ensures
            v == match cfg {
                Some(c) if c.default_volume is Some => c.default_volume->0,
                _ => match saved {
                    Some(st) => st.volume,
                    None => 50u8,
                },
            },
    {
        match cfg {
            Some(c) => match c.default_volume {
                Some(v) => {
                    return v;
                },
                None => {},
            },
            None => {},
        }
        match saved {
            Some(st) => st.volume,
            None => 50,
        }
    }
}

} // verus!
