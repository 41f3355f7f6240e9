//! Verified core of a terminal YouTube player: playlist and repeat logic,
//! the keyboard/state machine of the user interface, text layout of the
//! screen, and the framing of what yt-dlp and mpv exchange with it.
pub mod app;
pub mod config;
pub mod float;
pub mod model;
pub mod mpv;
pub mod rounding;
pub mod screen;
pub mod text;
pub mod visualizer;
pub mod ytdlp;
