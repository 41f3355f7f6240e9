//! The vocabulary the player speaks to mpv over its JSON IPC socket: the
//! command line that starts mpv, the argument lists of each request, and
//! the reading of a reply's status.
use vstd::prelude::*;

use crate::text::{owned, push_str};

verus! {

/// One element of an mpv command's `command` array.
#[derive(Debug, Clone, PartialEq, Eq)]
pub enum MpvArg {
    /// A JSON string.
    Text(String),
    /// A JSON boolean.
    Flag(bool),
    /// A JSON integer.
    Number(u32),
    /// A JSON floating-point number of whole seconds.
    Seconds(i8),
}

/// The spec view of an argument: strings by their characters.
pub enum ArgView {
    Text(Seq<char>),
    Flag(bool),
    Number(u32),
    Seconds(i8),
}

impl View for MpvArg {
    type V = ArgView;

    open spec fn view(&self) -> ArgView {
        match self {
            MpvArg::Text(s) => ArgView::Text(s@),
            MpvArg::Flag(b) => ArgView::Flag(*b),
            MpvArg::Number(n) => ArgView::Number(*n),
            MpvArg::Seconds(s) => ArgView::Seconds(*s),
        }
    }
}

/// Views of a list of arguments.
pub open spec fn arg_views(v: Seq<MpvArg>) -> Seq<ArgView> {
    v.map_values(|a: MpvArg| a@)
}

fn text(s: &str) -> (a: MpvArg)
    ensures
        a@ == ArgView::Text(s@),
{
    MpvArg::Text(owned(s))
}

/// The command line after the program name that starts mpv idle, audio
/// only, listening on `socket_path`.
pub fn start_args(socket_path: &str) -> (args: Vec<String>)
    ensures
        args@.map_values(|s: String| s@) == seq![
            "--idle"@,
            "--no-terminal"@,
            "--no-video"@,
            "--no-audio-display"@,
            "--volume=100"@,
            "--volume-max=100"@,
            "--replaygain=no"@,
            "--af=scaletempo"@,
            "--input-ipc-server="@ + socket_path@,
        ],
{
    let mut ipc = owned("--input-ipc-server=");
    push_str(&mut ipc, socket_path);
    let args = vec![
        owned("--idle"),
        owned("--no-terminal"),
        owned("--no-video"),
        owned("--no-audio-display"),
        owned("--volume=100"),
        owned("--volume-max=100"),
        owned("--replaygain=no"),
        owned("--af=scaletempo"),
        ipc,
    ];
    assert(args@.map_values(|s: String| s@) =~= seq![
        "--idle"@,
        "--no-terminal"@,
        "--no-video"@,
        "--no-audio-display"@,
        "--volume=100"@,
        "--volume-max=100"@,
        "--replaygain=no"@,
        "--af=scaletempo"@,
        "--input-ipc-server="@ + socket_path@,
    ]);
    args
}

/// `loadfile <url> replace`.
pub fn load_url_request(url: &str) -> (r: Vec<MpvArg>)
    ensures
        arg_views(r@) == seq![ArgView::Text("loadfile"@), ArgView::Text(url@), ArgView::Text("replace"@)],
{
    let r = vec![text("loadfile"), text(url), text("replace")];
    assert(arg_views(r@) =~= seq![ArgView::Text("loadfile"@), ArgView::Text(url@), ArgView::Text("replace"@)]);
    r
}

/// `set_property pause <paused>`.
pub fn set_pause_request(paused: bool) -> (r: Vec<MpvArg>)
    ensures
        arg_views(r@) == seq![ArgView::Text("set_property"@), ArgView::Text("pause"@), ArgView::Flag(paused)],
{
    let r = vec![text("set_property"), text("pause"), MpvArg::Flag(paused)];
    assert(arg_views(r@) =~= seq![ArgView::Text("set_property"@), ArgView::Text("pause"@), ArgView::Flag(paused)]);
    r
}

/// `get_property <name>`.
pub fn get_property_request(name: &str) -> (r: Vec<MpvArg>)
    ensures
        arg_views(r@) == seq![ArgView::Text("get_property"@), ArgView::Text(name@)],
{
    let r = vec![text("get_property"), text(name)];
    assert(arg_views(r@) =~= seq![ArgView::Text("get_property"@), ArgView::Text(name@)]);
    r
}

/// `set_property volume <v>`, the volume capped at 100.
pub fn set_volume_request(vol: u8) -> (r: Vec<MpvArg>)
    ensures
        arg_views(r@) == seq![
            ArgView::Text("set_property"@),
            ArgView::Text("volume"@),
            ArgView::Number(if vol < 100 { vol as u32 } else { 100u32 }),
        ],
{
    let v: u32 = if vol < 100 { vol as u32 } else { 100 };
    let r = vec![text("set_property"), text("volume"), MpvArg::Number(v)];
    assert(arg_views(r@) =~= seq![
        ArgView::Text("set_property"@),
        ArgView::Text("volume"@),
        ArgView::Number(v),
    ]);
    r
}

/// `seek <seconds> relative`.
pub fn seek_request(seconds: i8) -> (r: Vec<MpvArg>)
    ensures
        arg_views(r@) == seq![ArgView::Text("seek"@), ArgView::Seconds(seconds), ArgView::Text("relative"@)],
{
    let r = vec![text("seek"), MpvArg::Seconds(seconds), text("relative")];
    assert(arg_views(r@) =~= seq![ArgView::Text("seek"@), ArgView::Seconds(seconds), ArgView::Text("relative"@)]);
    r
}

/// A request of one word (`stop`, `quit`).
pub fn word_request(word: &str) -> (r: Vec<MpvArg>)
    ensures
        arg_views(r@) == seq![ArgView::Text(word@)],
{
    let r = vec![text(word)];
    assert(arg_views(r@) =~= seq![ArgView::Text(word@)]);
    r
}

/// The failure a reply's `error` field reports: none when it is absent,
/// empty or "success", else `mpv error: <error>`.
pub fn reply_error(error: Option<String>) -> (r: Option<String>)
    ensures
        match error {
            Some(e) if e@ != "success"@ && e@.len() > 0 => r matches Some(m) && m@ == "mpv error: "@
                + e@,
            _ => r is None,
        },
{
    match error {
        Some(e) => {
            let ok = owned("success");
            if e != ok && !e.as_str().is_empty() {
                let mut m = owned("mpv error: ");
                push_str(&mut m, e.as_str());
                Some(m)
            } else {
                None
            }
        },
        None => None,
    }
}

/// The pause state to set when toggling: the opposite of the one mpv
/// reported, a missing or non-boolean answer counting as not paused.
pub fn toggled_pause(reported: Option<bool>) -> (p: bool)
    ensures
        p == !(reported == Some(true)),
{
    match reported {
        Some(b) => !b,
        None => true,
    }
}

/// How many times, at most, start-up looks for mpv's socket.
pub const SOCKET_CHECKS: u32 = 50;

/// The pause after each look that finds no socket, in milliseconds.
pub const SOCKET_PAUSE_MS: u64 = 100;

/// What start-up does after looking for mpv's socket.
#[derive(Debug, Clone, Copy, PartialEq, Eq)]
pub enum StartAction {
    /// The socket is there: connect to it.
    Connect,
    /// Not yet: pause `SOCKET_PAUSE_MS` and look again.
    Retry,
    /// Not yet, and this was the last look: pause `SOCKET_PAUSE_MS`, then
    /// give up.
    GiveUp,
}

/// The step of start-up after look number `attempt` (from 0), which found
/// the socket or not.
pub fn start_step(attempt: u32, exists: bool) -> (a: StartAction)
    ensures
        exists ==> a == StartAction::Connect,
        !exists && attempt + 1 < SOCKET_CHECKS ==> a == StartAction::Retry,
        !exists && attempt + 1 >= SOCKET_CHECKS ==> a == StartAction::GiveUp,
{
    if exists {
        StartAction::Connect
    } else if attempt < SOCKET_CHECKS - 1 {
        StartAction::Retry
    } else {
        StartAction::GiveUp
    }
}

} // verus!
