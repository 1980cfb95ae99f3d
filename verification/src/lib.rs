//! NaviPod: the logic of a click-wheel Subsonic player.
//!
//! Every module holds plain data and the rules over it; sockets, subprocesses,
//! the audio device, the database file and the window belong to the program
//! around this library.

pub mod clickwheel;
pub mod config;
pub mod db;
pub mod player;
pub mod relay;
pub mod single;
pub mod subsonic;
pub mod system;
pub mod text;
pub mod ui;
