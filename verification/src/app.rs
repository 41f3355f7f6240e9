//! The player's state machine. The outside world (keyboard, mpv, yt-dlp,
//! the visualizer) reaches it as events; what it wants done outside comes
//! back as a list of `Command`s, which the caller carries out in order.
use vstd::prelude::*;
use vstd::view::View as _;

use crate::model::{
    copy_videos, shuffle_result, unshuffle_result, Playlist, PlaylistView, RepeatMode, Track,
    Video,
};
use crate::text::{push_str, string_of};

verus! {

broadcast use vstd::seq_lib::group_to_multiset_ensures;

/// Whether keys go to the search box or act on the results.
#[derive(Debug, Clone, Copy, PartialEq, Eq, Structural)]
pub enum InputMode {
    Normal,
    Search,
}

/// The screen being shown.
#[derive(Debug, Clone, Copy, PartialEq, Eq, Structural)]
pub enum View {
    Search,
}

/// The key of a key press.
#[derive(Debug, Clone, Copy, PartialEq, Eq, Structural)]
pub enum KeyCode {
    Char(char),
    F(u8),
    Left,
    Right,
    Up,
    Down,
    PageUp,
    PageDown,
    Home,
    End,
    Enter,
    Esc,
    Backspace,
    Other,
}

/// Bit of `Key::modifiers` for the Control key.
pub const CONTROL: u8 = 2;

/// A key press: the key and the bit set of held modifiers (Shift 1,
/// Control 2, Alt 4, Super 8, Hyper 16, Meta 32).
#[derive(Debug, Clone, Copy, PartialEq, Eq, Structural)]
pub struct Key {
    pub code: KeyCode,
    pub modifiers: u8,
}

/// Why a video is being started; decides what a failure to start it does.
#[derive(Debug, Clone, Copy, PartialEq, Eq, Structural)]
pub enum PlayContext {
    /// The user asked for it: a failure ends the program with that error.
    Key,
    /// The track ended under repeat-one.
    RepeatOne,
    /// The playlist ended under repeat-all.
    RepeatAll,
    /// The track ended and the next one follows.
    AutoNext,
}

/// Work for the caller, outside the state machine.
#[derive(Debug, Clone, PartialEq, Eq)]
pub enum Command {
    /// Leave the event loop.
    Quit,
    /// Set mpv's volume; a failure ends the program with that error.
    SetVolume(u8),
    /// Seek by this many seconds; a failure is ignored.
    Seek(i8),
    /// Toggle mpv's pause; a failure ends the program with that error.
    TogglePause,
    /// Stop mpv's playback.
    Stop,
    /// Read mpv's volume and hand it to `App::apply_mute`; a failure ends the
    /// program with that error.
    ToggleMute,
    /// Resolve the stream, load it into mpv and set the volume; then report to
    /// `App::on_track_started`, or on failure to `App::on_play_error`.
    Play(Video, PlayContext),
    /// Search for `App::search_query` in the background and report to
    /// `App::on_search_result`.
    Search,
    /// Like `Search`, keeping only videos whose ids are not in
    /// `App::known_ids` (see `unseen_videos`).
    LoadMore,
}

/// The state of the player.
pub struct App {
    pub input_mode: InputMode,
    pub width: u16,
    pub height: u16,
    pub view: View,
    pub query: String,
    /// The query of the last search, kept for "load more".
    pub search_query: String,
    pub results: Vec<Video>,
    pub cursor: usize,
    pub scroll_offset: usize,
    pub searching: bool,
    pub error: Option<String>,
    pub track: Option<Track>,
    pub playlist: Playlist,
    pub volume: u8,
    pub muted_volume: u8,
    /// Bar heights of the visualizer, each below 8.
    pub eq_bars: Vec<u8>,
    pub tick: u64,
    /// Ticks left before the end of a track may again trigger auto-next.
    pub autonext_cooldown: u8,
    pub repeat: RepeatMode,
}

/// The state as the contracts see it.
#[verifier::ext_equal]
pub struct AppView {
    pub input_mode: InputMode,
    pub width: u16,
    pub height: u16,
    pub view: View,
    pub query: Seq<char>,
    pub search_query: Seq<char>,
    pub results: Seq<Video>,
    pub cursor: usize,
    pub scroll_offset: usize,
    pub searching: bool,
    pub error: Option<Seq<char>>,
    pub track: Option<Track>,
    pub playlist: PlaylistView,
    pub volume: u8,
    pub muted_volume: u8,
    pub eq_bars: Seq<u8>,
    pub tick: u64,
    pub autonext_cooldown: u8,
    pub repeat: RepeatMode,
}

/// View of an optional string.
pub open spec fn opt_view(s: Option<String>) -> Option<Seq<char>> {
    match s {
        Some(t) => Some(t@),
        None => None,
    }
}

impl vstd::view::View for App {
    type V = AppView;

    open spec fn view(&self) -> AppView {
        AppView {
            input_mode: self.input_mode,
            width: self.width,
            height: self.height,
            view: self.view,
            query: self.query@,
            search_query: self.search_query@,
            results: self.results@,
            cursor: self.cursor,
            scroll_offset: self.scroll_offset,
            searching: self.searching,
            error: opt_view(self.error),
            track: self.track,
            playlist: self.playlist@,
            volume: self.volume,
            muted_volume: self.muted_volume,
            eq_bars: self.eq_bars@,
            tick: self.tick,
            autonext_cooldown: self.autonext_cooldown,
            repeat: self.repeat,
        }
    }
}

/// `a - b`, or 0 when `b > a` (`saturating_sub`).
pub open spec fn minus(a: int, b: int) -> int {
    if a > b { a - b } else { 0 }
}

/// The smaller of `a` and `b`.
pub open spec fn smaller(a: int, b: int) -> int {
    if a < b { a } else { b }
}

/// Rows of results assumed visible for a terminal `height` rows high.
pub open spec fn rows_for(height: u16) -> int {
    let h = minus(height as int, 5);
    if h < 1 { 1 } else { h }
}

/// Is `key` Control-C (Control alone, no other modifier)?
pub open spec fn is_ctrl_c(key: Key) -> bool {
    key.code == KeyCode::Char('c') && key.modifiers == CONTROL
}

impl AppView {
    /// The invariant of the player's state.
    pub open spec fn wf(self) -> bool {
        &&& (self.cursor < self.results.len() || self.cursor == 0)
        &&& self.playlist.items.len() <= self.results.len()
        &&& self.playlist.original_items.len() <= self.results.len()
        &&& (self.playlist.current < self.playlist.items.len() || self.playlist.current == 0)
        &&& forall|i: int| 0 <= i < self.eq_bars.len() ==> self.eq_bars[i] < 8
    }

    /// Cursor one row up, scrolling to keep it in sight.
    pub open spec fn cursor_up(self) -> AppView {
        if self.cursor > 0 {
            let c = (self.cursor - 1) as usize;
            AppView {
                cursor: c,
                scroll_offset: if c < self.scroll_offset { c } else { self.scroll_offset },
                ..self
            }
        } else {
            self
        }
    }

    /// Cursor one row down, scrolling once it passes the visible rows.
    pub open spec fn cursor_down(self) -> AppView {
        let len = self.results.len() as int;
        if self.cursor + 1 < len {
            let c = self.cursor + 1;
            let vis = rows_for(self.height);
            if c >= self.scroll_offset + vis {
                AppView {
                    cursor: c as usize,
                    scroll_offset: smaller(minus(c, vis), minus(len, 1)) as usize,
                    ..self
                }
            } else {
                AppView { cursor: c as usize, ..self }
            }
        } else {
            self
        }
    }

    /// Cursor one page up.
    pub open spec fn page_up(self) -> AppView {
        let vis = rows_for(self.height);
        if self.results.len() == 0 {
            self
        } else if self.cursor > vis {
            AppView {
                cursor: (self.cursor - vis) as usize,
                scroll_offset: minus(self.scroll_offset as int, vis) as usize,
                ..self
            }
        } else {
            AppView { cursor: 0, scroll_offset: 0, ..self }
        }
    }

    /// Cursor one page down.
    pub open spec fn page_down(self) -> AppView {
        let vis = rows_for(self.height);
        let total = self.results.len() as int;
        if total == 0 {
            self
        } else if self.cursor + vis < total {
            AppView {
                cursor: (self.cursor + vis) as usize,
                scroll_offset: smaller(self.scroll_offset + vis, total - 1) as usize,
                ..self
            }
        } else {
            AppView {
                cursor: (total - 1) as usize,
                scroll_offset: minus(total - 1, vis) as usize,
                ..self
            }
        }
    }

    /// Cursor on the first result.
    pub open spec fn home(self) -> AppView {
        AppView { cursor: 0, scroll_offset: 0, ..self }
    }

    /// Cursor on the last result.
    pub open spec fn end(self) -> AppView {
        let c = minus(self.results.len() as int, 1);
        AppView {
            cursor: c as usize,
            scroll_offset: minus(c, rows_for(self.height)) as usize,
            ..self
        }
    }

    /// The cursor movement a navigation key makes, if `code` is one.
    pub open spec fn navigate(self, code: KeyCode) -> AppView {
        match code {
            KeyCode::Up => self.cursor_up(),
            KeyCode::Down => self.cursor_down(),
            KeyCode::PageUp => self.page_up(),
            KeyCode::PageDown => self.page_down(),
            KeyCode::Home => self.home(),
            KeyCode::End => self.end(),
            _ => self,
        }
    }

    /// Volume set to `v`, and the track's too.
    pub open spec fn with_volume(self, v: u8) -> AppView {
        AppView {
            volume: v,
            track: match self.track {
                Some(t) => Some(Track { volume: v, ..t }),
                None => None,
            },
            ..self
        }
    }

    /// Volume five steps lower, at least 0.
    pub open spec fn volume_down(self) -> (AppView, Seq<Command>) {
        let v = minus(self.volume as int, 5) as u8;
        (self.with_volume(v), seq![Command::SetVolume(v)])
    }

    /// Volume five steps higher, at most 100.
    pub open spec fn volume_up(self) -> (AppView, Seq<Command>) {
        let v = smaller(self.volume + 5, 100) as u8;
        (self.with_volume(v), seq![Command::SetVolume(v)])
    }

    /// Playback stopped.
    pub open spec fn stop(self) -> (AppView, Seq<Command>) {
        (AppView { track: None, view: View::Search, ..self }, seq![Command::Stop])
    }

    /// A seek of `delta` seconds while a track is loaded.
    pub open spec fn seek(self, delta: i8) -> (AppView, Seq<Command>) {
        (self, if self.track is Some { seq![Command::Seek(delta)] } else { seq![] })
    }

    /// Start playing `v` on the user's request.
    pub open spec fn play(self, v: Video) -> (AppView, Seq<Command>) {
        (AppView { autonext_cooldown: 0, ..self }, seq![Command::Play(v, PlayContext::Key)])
    }

    /// Play the result under the cursor, which becomes the playlist's current.
    pub open spec fn play_at_cursor(self) -> (AppView, Seq<Command>) {
        if self.cursor < self.results.len() {
            let p = if self.cursor < self.playlist.items.len() {
                PlaylistView { current: self.cursor, ..self.playlist }
            } else {
                self.playlist
            };
            AppView { playlist: p, ..self }.play(self.results[self.cursor as int])
        } else {
            (self, seq![])
        }
    }

    /// Play the playlist's next item.
    pub open spec fn play_next(self) -> (AppView, Seq<Command>) {
        let c = self.playlist.current + 1;
        if c < self.playlist.items.len() {
            AppView {
                playlist: PlaylistView { current: c as usize, ..self.playlist },
                cursor: c as usize,
                ..self
            }.play(self.playlist.items[c])
        } else {
            (self, seq![])
        }
    }

    /// Play the playlist's previous item.
    pub open spec fn play_prev(self) -> (AppView, Seq<Command>) {
        if self.playlist.current > 0 {
            let c = self.playlist.current - 1;
            let moved = AppView {
                playlist: PlaylistView { current: c as usize, ..self.playlist },
                ..self
            };
            if c < self.playlist.items.len() {
                AppView { cursor: c as usize, ..moved }.play(self.playlist.items[c])
            } else {
                (moved, seq![])
            }
        } else {
            (self, seq![])
        }
    }

    /// Begin a search for the query; an empty query starts nothing.
    pub open spec fn start_search(self) -> (AppView, Seq<Command>) {
        if self.query.len() == 0 {
            (self, seq![])
        } else {
            (
                AppView {
                    searching: true,
                    search_query: self.query,
                    error: None,
                    cursor: 0,
                    ..self
                },
                seq![Command::Search],
            )
        }
    }

    /// Ask for more results of the last search.
    pub open spec fn load_more(self) -> (AppView, Seq<Command>) {
        if self.search_query.len() == 0 || self.searching {
            (self, seq![])
        } else {
            (AppView { searching: true, error: None, ..self }, seq![Command::LoadMore])
        }
    }

    /// What a key does in the search box.
    pub open spec fn search_key(self, key: Key) -> (AppView, Seq<Command>) {
        let browsing = self.results.len() > 0 && !self.searching;
        match key.code {
            KeyCode::F(1) => (self, seq![Command::ToggleMute]),
            KeyCode::F(2) => self.volume_down(),
            KeyCode::F(3) => self.volume_up(),
            KeyCode::F(4) => self.stop(),
            KeyCode::Left => self.seek(-5i8),
            KeyCode::Right => self.seek(5i8),
            KeyCode::Up | KeyCode::Down | KeyCode::PageUp | KeyCode::PageDown | KeyCode::Home
            | KeyCode::End => (if browsing { self.navigate(key.code) } else { self }, seq![]),
            KeyCode::Enter => if self.query.len() > 0 && !self.searching {
                self.start_search()
            } else {
                (self, seq![])
            },
            KeyCode::Esc | KeyCode::Char('/') => if self.query.len() == 0 {
                (AppView { input_mode: InputMode::Normal, ..self }, seq![])
            } else {
                (AppView { query: seq![], ..self }, seq![])
            },
            KeyCode::Backspace => (
                AppView {
                    query: if self.query.len() > 0 { self.query.drop_last() } else { self.query },
                    ..self
                },
                seq![],
            ),
            KeyCode::Char(c) => if key.modifiers & CONTROL == 0 {
                (AppView { query: self.query.push(c), ..self }, seq![])
            } else {
                (self, seq![])
            },
            _ => (self, seq![]),
        }
    }

    /// What a key does outside the search box, shuffle aside.
    pub open spec fn normal_key(self, key: Key) -> (AppView, Seq<Command>) {
        let browsing = self.results.len() > 0;
        match key.code {
            KeyCode::Char('/') => (AppView { input_mode: InputMode::Search, ..self }, seq![]),
            KeyCode::Up | KeyCode::Down | KeyCode::PageUp | KeyCode::PageDown | KeyCode::Home
            | KeyCode::End => (if browsing { self.navigate(key.code) } else { self }, seq![]),
            KeyCode::Enter => if browsing {
                self.play_at_cursor()
            } else {
                (self, seq![])
            },
            KeyCode::Char(' ') => if self.track is Some {
                (self, seq![Command::TogglePause])
            } else if browsing {
                self.play_at_cursor()
            } else {
                (self, seq![])
            },
            KeyCode::Char('n') => self.play_next(),
            KeyCode::Char('p') => self.play_prev(),
            KeyCode::Left => self.seek(-5i8),
            KeyCode::Right => self.seek(5i8),
            KeyCode::F(1) => (self, seq![Command::ToggleMute]),
            KeyCode::F(2) | KeyCode::Char('-') => self.volume_down(),
            KeyCode::F(3) | KeyCode::Char('=') | KeyCode::Char('+') => self.volume_up(),
            KeyCode::F(4) | KeyCode::Char('s') => self.stop(),
            KeyCode::Char('r') | KeyCode::Char('R') => (
                AppView { repeat: self.repeat.successor(), ..self },
                seq![],
            ),
            KeyCode::Char('l') | KeyCode::Char('L') => self.load_more(),
            _ => (self, seq![]),
        }
    }

    /// Is `key` the shuffle key, which acts on the playlist at random?
    pub open spec fn is_shuffle_key(self, key: Key) -> bool {
        &&& !is_ctrl_c(key)
        &&& self.input_mode == InputMode::Normal
        &&& (key.code == KeyCode::Char('x') || key.code == KeyCode::Char('X'))
    }

    /// What a key press does (for the shuffle key see `shuffled_by_key`).
    pub open spec fn key_outcome(self, key: Key) -> (AppView, Seq<Command>) {
        if is_ctrl_c(key) {
            (self, seq![Command::Quit])
        } else if self.input_mode == InputMode::Search {
            self.search_key(key)
        } else {
            self.normal_key(key)
        }
    }
}

/// `after` is `before` with its playlist shuffled or unshuffled by the
/// shuffle key.
pub open spec fn shuffled_by_key(before: AppView, after: AppView) -> bool {
    &&& after == AppView { playlist: after.playlist, ..before }
    &&& before.playlist.shuffled ==> unshuffle_result(before.playlist, after.playlist)
    &&& !before.playlist.shuffled ==> shuffle_result(before.playlist, after.playlist)
}

/// Navigation keeps the invariant.
proof fn lemma_navigate_wf(a: AppView, code: KeyCode)
    requires
        a.wf(),
        a.results.len() > 0,
    ensures
        a.navigate(code).wf(),
{
}

/// Every key of the search box keeps the invariant.
proof fn lemma_search_key_wf(a: AppView, key: Key)
    requires
        a.wf(),
    ensures
        a.search_key(key).0.wf(),
{
    match key.code {
        KeyCode::Up | KeyCode::Down | KeyCode::PageUp | KeyCode::PageDown | KeyCode::Home
        | KeyCode::End => {
            if a.results.len() > 0 && !a.searching {
                lemma_navigate_wf(a, key.code);
            }
        },
        _ => {},
    }
}

/// Every key outside the search box, shuffle aside, keeps the invariant.
proof fn lemma_normal_key_wf(a: AppView, key: Key)
    requires
        a.wf(),
        a.playlist.items.len() <= usize::MAX,
    ensures
        a.normal_key(key).0.wf(),
{
    match key.code {
        KeyCode::Up | KeyCode::Down | KeyCode::PageUp | KeyCode::PageDown | KeyCode::Home
        | KeyCode::End => {
            if a.results.len() > 0 {
                lemma_navigate_wf(a, key.code);
            }
        },
        _ => {},
    }
}

impl App {
    /// The invariant of the player's state.
    pub open spec fn wf(&self) -> bool {
        self@.wf()
    }

    /// A fresh player with the given starting volume (capped at 100).
    pub fn with_config(default_volume: u8) -> (app: App)
        ensures
            app.wf(),
            app@ == (AppView {
                input_mode: InputMode::Search,
                width: 80,
                height: 24,
                view: View::Search,
                query: seq![],
                search_query: seq![],
                results: seq![],
                cursor: 0,
                scroll_offset: 0,
                searching: false,
                error: None,
                track: None,
                playlist: Playlist::new_view(),
                volume: smaller(default_volume as int, 100) as u8,
                muted_volume: smaller(default_volume as int, 100) as u8,
                eq_bars: seq![],
                tick: 0,
                autonext_cooldown: 0,
                repeat: RepeatMode::Off,
            }),
    {
        let vol: u8 = if default_volume < 100 { default_volume } else { 100 };
        App {
            input_mode: InputMode::Search,
            width: 80,
            height: 24,
            view: View::Search,
            query: String::new(),
            search_query: String::new(),
            results: Vec::new(),
            cursor: 0,
            scroll_offset: 0,
            searching: false,
            error: None,
            track: None,
            playlist: Playlist::new(),
            volume: vol,
            muted_volume: vol,
            eq_bars: Vec::new(),
            tick: 0,
            autonext_cooldown: 0,
            repeat: RepeatMode::Off,
        }
    }

    /// Rows of results assumed visible: the terminal height less about 5
    /// lines of header and decorations, at least 1.
    pub fn visible_height(&self) -> (r: usize)
        ensures
            r == rows_for(self.height),
    {
        let h: u16 = if self.height > 5 { self.height - 5 } else { 0 };
        let r: u16 = if h < 1 { 1 } else { h };
        r as usize
    }

    fn cursor_up(&mut self)
        ensures
            final(self)@ == old(self)@.cursor_up(),
    {
        if self.cursor > 0 {
            self.cursor = self.cursor - 1;
            if self.cursor < self.scroll_offset {
                self.scroll_offset = self.cursor;
            }
        }
    }

    fn cursor_down(&mut self)
        ensures
            final(self)@ == old(self)@.cursor_down(),
    {
        let len: usize = self.results.len();
        if len > 0 && self.cursor < len - 1 {
            self.cursor = self.cursor + 1;
            let vis: usize = self.visible_height();
            if self.cursor >= vis && self.cursor - vis >= self.scroll_offset {
                let low: usize = self.cursor - vis;
                self.scroll_offset = if low < len - 1 { low } else { len - 1 };
            }
        }
    }

    fn page_up(&mut self)
        ensures
            final(self)@ == old(self)@.page_up(),
    {
        if self.results.len() == 0 {
            return;
        }
        let vis: usize = self.visible_height();
        if self.cursor > vis {
            self.cursor = self.cursor - vis;
            self.scroll_offset = if self.scroll_offset > vis { self.scroll_offset - vis } else { 0 };
        } else {
            self.cursor = 0;
            self.scroll_offset = 0;
        }
    }

    fn page_down(&mut self)
        ensures
            final(self)@ == old(self)@.page_down(),
    {
        let total: usize = self.results.len();
        if total == 0 {
            return;
        }
        let vis: usize = self.visible_height();
        if self.cursor < total && vis < total - self.cursor {
            self.cursor = self.cursor + vis;
            self.scroll_offset = if self.scroll_offset <= total - 1 && vis <= total - 1
                - self.scroll_offset {
                self.scroll_offset + vis
            } else {
                total - 1
            };
        } else {
            self.cursor = total - 1;
            self.scroll_offset = if self.cursor > vis { self.cursor - vis } else { 0 };
        }
    }

    fn navigate(&mut self, code: KeyCode)
        ensures
            final(self)@ == old(self)@.navigate(code),
    {
        match code {
            KeyCode::Up => self.cursor_up(),
            KeyCode::Down => self.cursor_down(),
            KeyCode::PageUp => self.page_up(),
            KeyCode::PageDown => self.page_down(),
            KeyCode::Home => {
                self.cursor = 0;
                self.scroll_offset = 0;
            },
            KeyCode::End => {
                self.cursor = if self.results.len() > 0 { self.results.len() - 1 } else { 0 };
                let vis: usize = self.visible_height();
                self.scroll_offset = if self.cursor > vis { self.cursor - vis } else { 0 };
            },
            _ => {},
        }
    }

    fn set_volume(&mut self, v: u8)
        ensures
            final(self)@ == old(self)@.with_volume(v),
    {
        self.volume = v;
        match &mut self.track {
            Some(t) => {
                t.volume = v;
            },
            None => {},
        }
    }

    fn volume_down(&mut self) -> (cmds: Vec<Command>)
        ensures
            (final(self)@, cmds@) == old(self)@.volume_down(),
    {
        let v: u8 = if self.volume > 5 { self.volume - 5 } else { 0 };
        self.set_volume(v);
        vec![Command::SetVolume(v)]
    }

    fn volume_up(&mut self) -> (cmds: Vec<Command>)
        ensures
            (final(self)@, cmds@) == old(self)@.volume_up(),
    {
        let v: u8 = if self.volume >= 95 { 100 } else { self.volume + 5 };
        self.set_volume(v);
        vec![Command::SetVolume(v)]
    }

    fn stop(&mut self) -> (cmds: Vec<Command>)
        ensures
            (final(self)@, cmds@) == old(self)@.stop(),
    {
        self.track = None;
        self.view = View::Search;
        vec![Command::Stop]
    }

    fn seek(&self, delta: i8) -> (cmds: Vec<Command>)
        ensures
            (self@, cmds@) == self@.seek(delta),
    {
        if self.track.is_some() {
            vec![Command::Seek(delta)]
        } else {
            vec![]
        }
    }

    fn play_at_cursor(&mut self) -> (cmds: Vec<Command>)
        ensures
            (final(self)@, cmds@) == old(self)@.play_at_cursor(),
    {
        if self.cursor < self.results.len() {
            let video = self.results[self.cursor].duplicate();
            let _ = self.playlist.play_at(self.cursor);
            self.autonext_cooldown = 0;
            vec![Command::Play(video, PlayContext::Key)]
        } else {
            vec![]
        }
    }

    fn play_next(&mut self) -> (cmds: Vec<Command>)
        requires
            old(self).playlist.current < usize::MAX,
        ensures
            (final(self)@, cmds@) == old(self)@.play_next(),
    {
        let next: Option<Video> = match self.playlist.next() {
            Some(v) => Some(v.duplicate()),
            None => None,
        };
        match next {
            Some(v) => {
                self.cursor = self.playlist.current;
                self.autonext_cooldown = 0;
                vec![Command::Play(v, PlayContext::Key)]
            },
            None => vec![],
        }
    }

    fn play_prev(&mut self) -> (cmds: Vec<Command>)
        ensures
            (final(self)@, cmds@) == old(self)@.play_prev(),
    {
        let prev: Option<Video> = match self.playlist.prev() {
            Some(v) => Some(v.duplicate()),
            None => None,
        };
        match prev {
            Some(v) => {
                self.cursor = self.playlist.current;
                self.autonext_cooldown = 0;
                vec![Command::Play(v, PlayContext::Key)]
            },
            None => vec![],
        }
    }

    fn start_search(&mut self) -> (cmds: Vec<Command>)
        ensures
            (final(self)@, cmds@) == old(self)@.start_search(),
    {
        if self.query.as_str().is_empty() {
            return vec![];
        }
        self.searching = true;
        self.search_query = self.query.clone();
        self.error = None;
        self.cursor = 0;
        vec![Command::Search]
    }

    fn load_more(&mut self) -> (cmds: Vec<Command>)
        ensures
            (final(self)@, cmds@) == old(self)@.load_more(),
    {
        if self.search_query.as_str().is_empty() || self.searching {
            return vec![];
        }
        self.searching = true;
        self.error = None;
        vec![Command::LoadMore]
    }

    fn handle_search_mode(&mut self, key: Key) -> (cmds: Vec<Command>)
        ensures
            (final(self)@, cmds@) == old(self)@.search_key(key),
    {
        let browsing: bool = self.results.len() > 0 && !self.searching;
        match key.code {
            KeyCode::F(1) => vec![Command::ToggleMute],
            KeyCode::F(2) => self.volume_down(),
            KeyCode::F(3) => self.volume_up(),
            KeyCode::F(4) => self.stop(),
            KeyCode::Left => self.seek(-5),
            KeyCode::Right => self.seek(5),
            KeyCode::Up | KeyCode::Down | KeyCode::PageUp | KeyCode::PageDown | KeyCode::Home
            | KeyCode::End => {
                if browsing {
                    self.navigate(key.code);
                }
                vec![]
            },
            KeyCode::Enter => {
                if !self.query.as_str().is_empty() && !self.searching {
                    self.start_search()
                } else {
                    vec![]
                }
            },
            KeyCode::Esc | KeyCode::Char('/') => {
                if self.query.as_str().is_empty() {
                    self.input_mode = InputMode::Normal;
                } else {
                    self.query = String::new();
                }
                vec![]
            },
            KeyCode::Backspace => {
                let _ = crate::text::pop_char(&mut self.query);
                vec![]
            },
            KeyCode::Char(c) => {
                if key.modifiers & CONTROL == 0 {
                    crate::text::push_char(&mut self.query, c);
                }
                vec![]
            },
            _ => vec![],
        }
    }

    fn handle_normal_mode(&mut self, key: Key) -> (cmds: Vec<Command>)
        requires
            old(self).wf(),
            key.code != KeyCode::Char('x') && key.code != KeyCode::Char('X'),
        ensures
            (final(self)@, cmds@) == old(self)@.normal_key(key),
    {
        let browsing: bool = self.results.len() > 0;
        match key.code {
            KeyCode::Char('/') => {
                self.input_mode = InputMode::Search;
                vec![]
            },
            KeyCode::Up | KeyCode::Down | KeyCode::PageUp | KeyCode::PageDown | KeyCode::Home
            | KeyCode::End => {
                if browsing {
                    self.navigate(key.code);
                }
                vec![]
            },
            KeyCode::Enter => {
                if browsing {
                    self.play_at_cursor()
                } else {
                    vec![]
                }
            },
            KeyCode::Char(' ') => {
                if self.track.is_some() {
                    vec![Command::TogglePause]
                } else if browsing {
                    self.play_at_cursor()
                } else {
                    vec![]
                }
            },
            KeyCode::Char('n') => self.play_next(),
            KeyCode::Char('p') => self.play_prev(),
            KeyCode::Left => self.seek(-5),
            KeyCode::Right => self.seek(5),
            KeyCode::F(1) => vec![Command::ToggleMute],
            KeyCode::F(2) | KeyCode::Char('-') => self.volume_down(),
            KeyCode::F(3) | KeyCode::Char('=') | KeyCode::Char('+') => self.volume_up(),
            KeyCode::F(4) | KeyCode::Char('s') => self.stop(),
            KeyCode::Char('r') | KeyCode::Char('R') => {
                self.repeat = self.repeat.next();
                vec![]
            },
            KeyCode::Char('l') | KeyCode::Char('L') => self.load_more(),
            _ => vec![],
        }
    }

    /// Handles a key press: Control-C quits; otherwise the key acts on the
    /// search box or on the results, as `AppView::key_outcome` says; the
    /// shuffle key shuffles or unshuffles the playlist.
    pub fn handle_key(&mut self, key: Key) -> (cmds: Vec<Command>)
        requires
            old(self).wf(),
        ensures
            final(self).wf(),
            old(self)@.is_shuffle_key(key) ==> shuffled_by_key(old(self)@, final(self)@) && cmds@
                == Seq::<Command>::empty(),
            !old(self)@.is_shuffle_key(key) ==> (final(self)@, cmds@) == old(self)@.key_outcome(
                key,
            ),
    {
        if key.code == KeyCode::Char('c') && key.modifiers == CONTROL {
            return vec![Command::Quit];
        }
        assert(self.playlist.items@.len() == self.playlist.items.len());
        proof {
            lemma_search_key_wf(self@, key);
            lemma_normal_key_wf(self@, key);
        }
        match self.input_mode {
            InputMode::Search => {
                self.handle_search_mode(key)
            },
            InputMode::Normal => {
                if key.code == KeyCode::Char('x') || key.code == KeyCode::Char('X') {
                    self.playlist.toggle_shuffle();
                    vec![]
                } else {
                    self.handle_normal_mode(key)
                }
            },
        }
    }
}

/// The ids of `known`, as character sequences.
pub open spec fn id_views(known: Seq<String>) -> Seq<Seq<char>> {
    known.map_values(|s: String| s@)
}

/// The videos of `fetched`, in order, whose ids are not among `known`.
pub open spec fn unseen(fetched: Seq<Video>, known: Seq<Seq<char>>) -> Seq<Video>
    decreases fetched.len(),
{
    if fetched.len() == 0 {
        seq![]
    } else {
        let rest = unseen(fetched.drop_last(), known);
        if known.contains(fetched.last().id@) {
            rest
        } else {
            rest.push(fetched.last())
        }
    }
}

fn contains_id(known: &Vec<String>, id: &String) -> (b: bool)
    ensures
        b == id_views(known@).contains(id@),
{
    let mut i: usize = 0;
    while i < known.len()
        invariant
            i <= known@.len(),
            forall|j: int| 0 <= j < i ==> known@[j]@ != id@,
        decreases known@.len() - i,
    {
        if known[i] == *id {
            assert(id_views(known@)[i as int] == id@);
            return true;
        }
        i = i + 1;
    }
    assert forall|j: int| 0 <= j < id_views(known@).len() implies id_views(known@)[j] != id@ by {
        assert(id_views(known@)[j] == known@[j]@);
    }
    false
}

/// The fetched videos whose ids are not among `known`, in their order: what
/// "load more" adds to the results.
pub fn unseen_videos(known: &Vec<String>, fetched: Vec<Video>) -> (r: Vec<Video>)
    ensures
        r@ == unseen(fetched@, id_views(known@)),
{
    let mut r: Vec<Video> = Vec::new();
    let mut i: usize = 0;
    while i < fetched.len()
        invariant
            i <= fetched@.len(),
            r@ == unseen(fetched@.take(i as int), id_views(known@)),
        decreases fetched@.len() - i,
    {
        assert(fetched@.take(i + 1).drop_last() == fetched@.take(i as int));
        if !contains_id(known, &fetched[i].id) {
            r.push(fetched[i].duplicate());
        }
        i = i + 1;
    }
    assert(fetched@.take(fetched@.len() as int) == fetched@);
    r
}

/// No video that "load more" adds has an id among the known ones.
pub proof fn unseen_are_new(fetched: Seq<Video>, known: Seq<Seq<char>>)
    ensures
        forall|i: int|
            0 <= i < unseen(fetched, known).len() ==> !known.contains(
                (#[trigger] unseen(fetched, known)[i]).id@,
            ),
        unseen(fetched, known).len() <= fetched.len(),
    decreases fetched.len(),
{
    if fetched.len() > 0 {
        unseen_are_new(fetched.drop_last(), known);
    }
}

/// The message of a failed automatic start.
pub open spec fn play_error_text(ctx: PlayContext, message: Seq<char>) -> Seq<char> {
    let label = match ctx {
        PlayContext::RepeatOne => "auto-repeat-one"@,
        PlayContext::RepeatAll => "auto-repeat-all"@,
        _ => "auto-next"@,
    };
    label + ": "@ + message
}

impl AppView {
    /// The state once a search has answered with `videos` (and perhaps an
    /// error): a first answer replaces the results and the playlist; later
    /// answers ("load more") are appended to both.
    pub open spec fn search_result(self, videos: Seq<Video>, error: Option<Seq<char>>) -> AppView {
        let base = AppView { searching: false, error: error, ..self };
        if videos.len() == 0 {
            AppView {
                error: Some(
                    if self.results.len() == 0 {
                        "No results found"@
                    } else {
                        "No more results"@
                    },
                ),
                ..base
            }
        } else if self.results.len() == 0 {
            AppView {
                results: videos,
                cursor: 0,
                scroll_offset: 0,
                playlist: PlaylistView {
                    items: videos,
                    current: 0,
                    shuffled: false,
                    original_items: seq![],
                },
                input_mode: InputMode::Normal,
                ..base
            }
        } else {
            AppView {
                results: self.results + videos,
                playlist: PlaylistView { items: self.playlist.items + videos, ..self.playlist },
                ..base
            }
        }
    }

    /// The state at the start of a tick, given the latest visualizer bars.
    pub open spec fn tick_start(self, bars: Option<Seq<u8>>) -> AppView {
        AppView {
            tick: if self.tick == u64::MAX { 0 } else { (self.tick + 1) as u64 },
            eq_bars: match bars {
                Some(b) => b,
                None => self.eq_bars,
            },
            ..self
        }
    }

    /// The state once mpv has been polled; `None` for a query that failed.
    pub open spec fn polled(
        self,
        position: Option<u64>,
        duration: Option<u64>,
        paused: Option<bool>,
        volume: Option<u8>,
    ) -> AppView {
        match self.track {
            None => self,
            Some(t) => AppView {
                track: Some(
                    Track {
                        position: match position {
                            Some(p) => p,
                            None => t.position,
                        },
                        duration: match duration {
                            Some(d) => d,
                            None => t.duration,
                        },
                        paused: match paused {
                            Some(p) => p,
                            None => t.paused,
                        },
                        volume: match volume {
                            Some(v) => v,
                            None => t.volume,
                        },
                        ..t
                    },
                ),
                volume: match volume {
                    Some(v) => v,
                    None => self.volume,
                },
                ..self
            },
        }
    }

    /// Whether the end of the track is to be asked of mpv this tick.
    pub open spec fn wants_eof(self) -> bool {
        &&& self.autonext_cooldown == 0
        &&& self.track matches Some(t)
        &&& !t.video.is_live
        &&& !t.paused
    }

    /// What the end of a track leads to: the same track again, the playlist
    /// from the start, the next item, or a stop; then a pause of ten ticks
    /// before the end may again be acted on.
    pub open spec fn track_ended(self) -> (AppView, Seq<Command>) {
        let items = self.playlist.items;
        let c = self.playlist.current;
        let (s, cmds) = match self.repeat {
            RepeatMode::One => if c < items.len() {
                (self, seq![Command::Play(items[c as int], PlayContext::RepeatOne)])
            } else {
                (self, seq![])
            },
            RepeatMode::All => {
                let s = AppView { playlist: PlaylistView { current: 0, ..self.playlist }, ..self };
                if items.len() > 0 {
                    (s, seq![Command::Play(items[0], PlayContext::RepeatAll)])
                } else {
                    (s, seq![])
                }
            },
            RepeatMode::Off => if c + 1 < items.len() {
                (
                    AppView {
                        playlist: PlaylistView { current: (c + 1) as usize, ..self.playlist },
                        cursor: (c + 1) as usize,
                        ..self
                    },
                    seq![Command::Play(items[c + 1], PlayContext::AutoNext)],
                )
            } else {
                self.stop()
            },
        };
        (AppView { autonext_cooldown: 10, ..s }, cmds)
    }

    /// Mute when mpv reports a volume above 0 (remembering it), else restore
    /// the remembered volume, or 30 when none is remembered.
    pub open spec fn mute_toggled(self, reported: u8) -> (AppView, Seq<Command>) {
        if reported > 0 {
            (
                AppView { muted_volume: reported, ..self.with_volume(0) },
                seq![Command::SetVolume(0)],
            )
        } else {
            let restore: u8 = if self.muted_volume > 0 { self.muted_volume } else { 30 };
            (self.with_volume(restore), seq![Command::SetVolume(restore)])
        }
    }
}

/// Changing the volume keeps the invariant.
proof fn lemma_with_volume_wf(a: AppView, v: u8, m: u8)
    requires
        a.wf(),
    ensures
        a.with_volume(v).wf(),
        (AppView { muted_volume: m, ..a.with_volume(v) }).wf(),
{
}

/// The end of a track keeps the invariant.
proof fn lemma_track_ended_wf(a: AppView)
    requires
        a.wf(),
    ensures
        a.track_ended().0.wf(),
{
}

impl App {
    /// The terminal was resized.
    pub fn on_resize(&mut self, width: u16, height: u16)
        requires
            old(self).wf(),
        ensures
            final(self).wf(),
            final(self)@ == (AppView { width: width, height: height, ..old(self)@ }),
    {
        self.width = width;
        self.height = height;
    }

    /// The ids of the current results, for `unseen_videos`.
    pub fn known_ids(&self) -> (ids: Vec<String>)
        ensures
            id_views(ids@) == self@.results.map_values(|v: Video| v.id@),
    {
        let mut ids: Vec<String> = Vec::new();
        let mut i: usize = 0;
        while i < self.results.len()
            invariant
                i <= self.results@.len(),
                id_views(ids@) == self.results@.take(i as int).map_values(|v: Video| v.id@),
            decreases self.results@.len() - i,
        {
            let ghost before = ids@;
            ids.push(self.results[i].id.clone());
            assert(self.results@.take(i + 1) == self.results@.take(i as int).push(self.results@[i as int]));
            assert(id_views(ids@) =~= id_views(before).push(self.results@[i as int].id@));
            i = i + 1;
        }
        assert(self.results@.take(self.results@.len() as int) == self.results@);
        ids
    }

    /// A background search has answered.
    pub fn on_search_result(&mut self, videos: Vec<Video>, error: Option<String>)
        requires
            old(self).wf(),
        ensures
            final(self).wf(),
            final(self)@ == old(self)@.search_result(videos@, opt_view(error)),
    {
        self.searching = false;
        self.error = error;
        if videos.len() == 0 {
            self.error = Some(
                if self.results.len() == 0 {
                    crate::text::owned("No results found")
                } else {
                    crate::text::owned("No more results")
                },
            );
        } else if self.results.len() == 0 {
            self.results = copy_videos(&videos, 0, videos.len());
            assert(videos@.subrange(0, videos@.len() as int) == videos@);
            self.cursor = 0;
            self.scroll_offset = 0;
            self.playlist.clear();
            self.playlist.enqueue(videos);
            self.input_mode = InputMode::Normal;
        } else {
            let mut added = copy_videos(&videos, 0, videos.len());
            assert(videos@.subrange(0, videos@.len() as int) == videos@);
            self.results.append(&mut added);
            self.playlist.enqueue(videos);
        }
    }

    /// Start of a tick: counts it and takes the latest visualizer bars.
    /// Returns whether mpv is to be polled (a track is loaded).
    pub fn on_tick(&mut self, bars: Option<Vec<u8>>) -> (poll: bool)
        requires
            old(self).wf(),
            bars matches Some(b) ==> forall|i: int| 0 <= i < b@.len() ==> b@[i] < 8,
        ensures
            final(self).wf(),
            final(self)@ == old(self)@.tick_start(
                match bars {
                    Some(b) => Some(b@),
                    None => None,
                },
            ),
            poll == old(self)@.track is Some,
    {
        self.tick = if self.tick == u64::MAX { 0 } else { self.tick + 1 };
        match bars {
            Some(b) => {
                self.eq_bars = b;
            },
            None => {},
        }
        self.track.is_some()
    }

    /// Results of polling mpv: position and length in seconds (the bits of
    /// the doubles), pause state and volume, each `None` where the query
    /// failed.
    pub fn on_poll(
        &mut self,
        position: Option<u64>,
        duration: Option<u64>,
        paused: Option<bool>,
        volume: Option<u8>,
    )
        requires
            old(self).wf(),
        ensures
            final(self).wf(),
            final(self)@ == old(self)@.polled(position, duration, paused, volume),
    {
        match &mut self.track {
            Some(t) => {
                match position {
                    Some(p) => {
                        t.position = p;
                    },
                    None => {},
                }
                match duration {
                    Some(d) => {
                        t.duration = d;
                    },
                    None => {},
                }
                match paused {
                    Some(p) => {
                        t.paused = p;
                    },
                    None => {},
                }
                match volume {
                    Some(v) => {
                        t.volume = v;
                    },
                    None => {},
                }
            },
            None => {},
        }
        if self.track.is_some() {
            match volume {
                Some(v) => {
                    self.volume = v;
                },
                None => {},
            }
        }
    }

    /// Counts down the pause after an automatic start; returns whether mpv
    /// is to be asked if the track has ended.
    pub fn eof_check(&mut self) -> (ask: bool)
        requires
            old(self).wf(),
        ensures
            final(self).wf(),
            old(self).autonext_cooldown > 0 ==> final(self)@ == (AppView {
                autonext_cooldown: (old(self).autonext_cooldown - 1) as u8,
                ..old(self)@
            }) && !ask,
            old(self).autonext_cooldown == 0 ==> final(self)@ == old(self)@ && ask == old(
                self,
            )@.wants_eof(),
    {
        if self.autonext_cooldown > 0 {
            self.autonext_cooldown = self.autonext_cooldown - 1;
            false
        } else {
            match &self.track {
                Some(t) => !t.video.is_live && !t.paused,
                None => false,
            }
        }
    }

    /// mpv's answer to whether the track has ended.
    pub fn on_eof(&mut self, eof: bool) -> (cmds: Vec<Command>)
        requires
            old(self).wf(),
        ensures
            final(self).wf(),
            !eof ==> final(self)@ == old(self)@ && cmds@ == Seq::<Command>::empty(),
            eof ==> (final(self)@, cmds@) == old(self)@.track_ended(),
    {
        if !eof {
            return vec![];
        }
        proof {
            lemma_track_ended_wf(self@);
        }
        let cmds: Vec<Command> = match self.repeat {
            RepeatMode::One => {
                if self.playlist.current < self.playlist.items.len() {
                    vec![
                        Command::Play(
                            self.playlist.items[self.playlist.current].duplicate(),
                            PlayContext::RepeatOne,
                        ),
                    ]
                } else {
                    vec![]
                }
            },
            RepeatMode::All => {
                self.playlist.current = 0;
                if self.playlist.items.len() > 0 {
                    vec![Command::Play(self.playlist.items[0].duplicate(), PlayContext::RepeatAll)]
                } else {
                    vec![]
                }
            },
            RepeatMode::Off => {
                assert(self.playlist.items@.len() == self.playlist.items.len());
                if self.playlist.current + 1 < self.playlist.items.len() {
                    let next: Option<Video> = match self.playlist.next() {
                        Some(v) => Some(v.duplicate()),
                        None => None,
                    };
                    match next {
                        Some(v) => {
                            self.cursor = self.playlist.current;
                            vec![Command::Play(v, PlayContext::AutoNext)]
                        },
                        None => vec![],
                    }
                } else {
                    self.stop()
                }
            },
        };
        self.autonext_cooldown = 10;
        cmds
    }

    /// A `Command::Play` succeeded: `video` is now the track, from the start,
    /// at the player's volume.
    pub fn on_track_started(&mut self, video: Video)
        requires
            old(self).wf(),
        ensures
            final(self).wf(),
            final(self)@ == (AppView {
                track: Some(
                    Track {
                        video: video,
                        position: 0,
                        duration: 0,
                        volume: old(self).volume,
                        paused: false,
                    },
                ),
                ..old(self)@
            }),
    {
        self.track = Some(
            Track { video, position: 0, duration: 0, volume: self.volume, paused: false },
        );
    }

    /// A `Command::Play` failed with `message`. A start the user asked for
    /// ends the program (`true`, state unchanged); an automatic one only
    /// shows the error.
    pub fn on_play_error(&mut self, ctx: PlayContext, message: &str) -> (abort: bool)
        requires
            old(self).wf(),
        ensures
            final(self).wf(),
            abort == (ctx == PlayContext::Key),
            abort ==> final(self)@ == old(self)@,
            !abort ==> final(self)@ == (AppView {
                error: Some(play_error_text(ctx, message@)),
                ..old(self)@
            }),
    {
        if ctx == PlayContext::Key {
            return true;
        }
        let mut text = String::new();
        match ctx {
            PlayContext::RepeatOne => push_str(&mut text, "auto-repeat-one"),
            PlayContext::RepeatAll => push_str(&mut text, "auto-repeat-all"),
            _ => push_str(&mut text, "auto-next"),
        }
        push_str(&mut text, ": ");
        push_str(&mut text, message);
        self.error = Some(text);
        false
    }

    /// mpv could not be started: the error is shown as `mpv: <message>`.
    pub fn on_mpv_start_error(&mut self, message: &str)
        requires
            old(self).wf(),
        ensures
            final(self).wf(),
            final(self)@ == (AppView { error: Some("mpv: "@ + message@), ..old(self)@ }),
    {
        let mut text = crate::text::owned("mpv: ");
        push_str(&mut text, message);
        self.error = Some(text);
    }

    /// mpv reported `reported` as its volume after `Command::ToggleMute`.
    pub fn apply_mute(&mut self, reported: u8) -> (cmds: Vec<Command>)
        requires
            old(self).wf(),
        ensures
            final(self).wf(),
            (final(self)@, cmds@) == old(self)@.mute_toggled(reported),
    {
        proof {
            lemma_with_volume_wf(self@, 0, reported);
            lemma_with_volume_wf(self@, 30, reported);
            lemma_with_volume_wf(self@, self.muted_volume, reported);
        }
        if reported > 0 {
            self.muted_volume = reported;
            self.set_volume(0);
            vec![Command::SetVolume(0)]
        } else {
            let restore: u8 = if self.muted_volume > 0 { self.muted_volume } else { 30 };
            self.set_volume(restore);
            vec![Command::SetVolume(restore)]
        }
    }
}

/// Raising the volume and lowering it again gives back a volume of at
/// most 95.
pub proof fn volume_up_then_down(a: AppView)
    requires
        a.volume <= 95,
    ensures
        a.volume_up().0.volume_down().0.volume == a.volume,
        a.volume_up().0.volume_down().1 == seq![Command::SetVolume(a.volume)],
{
}

/// Muting at a reported volume `v` and unmuting afterwards (mpv then
/// reporting 0) gives back `v`.
pub proof fn mute_then_unmute(a: AppView, v: u8)
    requires
        v > 0,
    ensures
        a.mute_toggled(v).0.volume == 0,
        a.mute_toggled(v).0.mute_toggled(0).0.volume == v,
        a.mute_toggled(v).0.mute_toggled(0).1 == seq![Command::SetVolume(v)],
{
}

/// In the search box, Backspace takes back a typed character.
pub proof fn backspace_undoes_typing(a: AppView, c: char, modifiers: u8)
    requires
        a.input_mode == InputMode::Search,
        c != '/',
        modifiers & CONTROL == 0,
    ensures
        a.key_outcome(Key { code: KeyCode::Char(c), modifiers }).0.key_outcome(
            Key { code: KeyCode::Backspace, modifiers: 0 },
        ).0 == a,
{
    let typed = a.key_outcome(Key { code: KeyCode::Char(c), modifiers });
    assert(!is_ctrl_c(Key { code: KeyCode::Char(c), modifiers })) by {
        if modifiers == CONTROL {
            assert(CONTROL & CONTROL == CONTROL) by (bit_vector);
        }
    }
    assert(typed.0.query == a.query.push(c));
    assert(typed.0.query.drop_last() =~= a.query);
}

/// Control-C ends the program from any state, changing nothing.
pub proof fn ctrl_c_quits(a: AppView)
    ensures
        a.key_outcome(Key { code: KeyCode::Char('c'), modifiers: CONTROL }) == (
            a,
            seq![Command::Quit],
        ),
{
}

/// While the playlist holds exactly the results, it still does once a
/// search has answered; a first answer also rewinds it and drops any
/// shuffle.
pub proof fn playlist_follows_results(a: AppView, videos: Seq<Video>, error: Option<Seq<char>>)
    requires
        a.playlist.items == a.results,
    ensures
        a.search_result(videos, error).playlist.items == a.search_result(videos, error).results,
        a.results.len() == 0 && videos.len() > 0 ==> a.search_result(videos, error).playlist
            == Playlist::new_view().with_items(videos),
{
}

/// The cursor row is in view: at or below the scroll offset and at most the
/// visible rows below it.
pub open spec fn cursor_in_view(a: AppView) -> bool {
    a.scroll_offset <= a.cursor <= a.scroll_offset + rows_for(a.height)
}

/// Every navigation key keeps the cursor on a result and in view.
pub proof fn navigation_keeps_cursor_in_view(a: AppView, code: KeyCode)
    requires
        0 < a.results.len() <= usize::MAX,
        a.cursor < a.results.len(),
        cursor_in_view(a),
    ensures
        a.navigate(code).cursor < a.results.len(),
        cursor_in_view(a.navigate(code)),
        a.navigate(code).results == a.results,
{
}

/// With repeat One, the end of a track plays the current item again,
/// wherever it stands in the playlist (the last item too), and moves
/// neither the playlist nor the cursor.
pub proof fn repeat_one_replays_current(a: AppView)
    requires
        a.repeat == RepeatMode::One,
        a.playlist.current < a.playlist.items.len(),
    ensures
        a.track_ended().1 == seq![
            Command::Play(a.playlist.items[a.playlist.current as int], PlayContext::RepeatOne),
        ],
        a.track_ended().0.playlist == a.playlist,
        a.track_ended().0.cursor == a.cursor,
        a.track_ended().0.results == a.results,
        a.track_ended().0.track == a.track,
{
}

/// With repeat Off, the end of a track plays the item after the current one
/// and moves the playlist and the cursor to it; at the last item it stops.
pub proof fn repeat_off_moves_on(a: AppView)
    requires
        a.repeat == RepeatMode::Off,
        a.playlist.current < a.playlist.items.len(),
        a.playlist.items.len() <= usize::MAX,
    ensures
        a.playlist.current + 1 < a.playlist.items.len() ==> a.track_ended().1 == seq![
            Command::Play(a.playlist.items[a.playlist.current + 1], PlayContext::AutoNext),
        ] && a.track_ended().0.playlist.current == a.playlist.current + 1
            && a.track_ended().0.cursor == a.playlist.current + 1,
        a.playlist.current + 1 == a.playlist.items.len() ==> a.track_ended().1 == seq![
            Command::Stop,
        ] && a.track_ended().0.track is None,
        a.track_ended().0.playlist.items == a.playlist.items,
{
}

/// A non-empty answer to "load more" appends: the old results and playlist
/// items keep their places, the new videos follow them in order, and the
/// cursor, the scroll, the current index and the track stay where they were.
pub proof fn load_more_appends(a: AppView, videos: Seq<Video>, error: Option<Seq<char>>)
    requires
        a.results.len() > 0,
        videos.len() > 0,
    ensures
        ({
            let b = a.search_result(videos, error);
            &&& b.results.len() == a.results.len() + videos.len()
            &&& forall|i: int| 0 <= i < a.results.len() ==> b.results[i] == a.results[i]
            &&& forall|j: int|
                0 <= j < videos.len() ==> b.results[a.results.len() + j] == videos[j]
            &&& b.playlist.items.len() == a.playlist.items.len() + videos.len()
            &&& forall|i: int|
                0 <= i < a.playlist.items.len() ==> b.playlist.items[i] == a.playlist.items[i]
            &&& forall|j: int|
                0 <= j < videos.len() ==> b.playlist.items[a.playlist.items.len() + j]
                    == videos[j]
            &&& b.playlist.current == a.playlist.current
            &&& b.playlist.shuffled == a.playlist.shuffled
            &&& b.playlist.original_items == a.playlist.original_items
            &&& b.cursor == a.cursor
            &&& b.scroll_offset == a.scroll_offset
            &&& b.track == a.track
            &&& !b.searching
        }),
{
}

/// The key with code `code` and no modifier.
pub open spec fn plain_key(code: KeyCode) -> Key {
    Key { code: code, modifiers: 0 }
}

/// In the results, with nothing loaded, Space does what Enter does: it
/// plays the result under the cursor, which becomes the playlist's current
/// where the playlist reaches it.
pub proof fn space_plays_when_idle(a: AppView)
    requires
        a.wf(),
        a.input_mode == InputMode::Normal,
        a.track is None,
        a.results.len() > 0,
    ensures
        a.key_outcome(plain_key(KeyCode::Char(' '))) == a.key_outcome(plain_key(KeyCode::Enter)),
        a.key_outcome(plain_key(KeyCode::Char(' '))).1 == seq![
            Command::Play(a.results[a.cursor as int], PlayContext::Key),
        ],
        a.cursor < a.playlist.items.len() ==> a.key_outcome(
            plain_key(KeyCode::Char(' ')),
        ).0.playlist.current == a.cursor,
        a.key_outcome(plain_key(KeyCode::Char(' '))).0.results == a.results,
{
}

/// In the results, `p` goes back one item whenever there is one before the
/// current: the playlist and the cursor move to it and it is played.
pub proof fn prev_key_goes_back(a: AppView)
    requires
        a.input_mode == InputMode::Normal,
        0 < a.playlist.current < a.playlist.items.len(),
    ensures
        a.key_outcome(plain_key(KeyCode::Char('p'))).1 == seq![
            Command::Play(a.playlist.items[a.playlist.current - 1], PlayContext::Key),
        ],
        a.key_outcome(plain_key(KeyCode::Char('p'))).0.playlist == (PlaylistView {
            current: (a.playlist.current - 1) as usize,
            ..a.playlist
        }),
        a.key_outcome(plain_key(KeyCode::Char('p'))).0.cursor == a.playlist.current - 1,
{
}

/// `p` after an `n` that moved plays again the item that was current
/// before, with the playlist back where it was and the cursor on it.
pub proof fn prev_after_next(a: AppView)
    requires
        a.input_mode == InputMode::Normal,
        a.playlist.current + 1 < a.playlist.items.len(),
        a.playlist.items.len() <= usize::MAX,
    ensures
        ({
            let n = a.key_outcome(plain_key(KeyCode::Char('n')));
            let p = n.0.key_outcome(plain_key(KeyCode::Char('p')));
            &&& n.1 == seq![
                Command::Play(a.playlist.items[a.playlist.current + 1], PlayContext::Key),
            ]
            &&& p.1 == seq![
                Command::Play(a.playlist.items[a.playlist.current as int], PlayContext::Key),
            ]
            &&& p.0.playlist == a.playlist
            &&& p.0.cursor == a.playlist.current
        }),
{
    assert(a.playlist.current + 1 <= usize::MAX);
}

} // verus!
