//! Engine for resolving and displaying synchronized lyrics for the song a
//! media player is currently playing.
//!
//! The crate holds the parts of the system whose behaviour is worth stating
//! precisely: the cache of resolved lyric texts, the best-match selection
//! among search candidates, the per-provider request shaping and response
//! interpretation, the resolution orchestrator, the timed-text parser and
//! the playback-time synchronizer.  Network and filesystem traffic, and the
//! terminal front end, live outside the crate and drive these pieces.

pub mod cache;
pub mod client;
pub mod config;
pub mod error;
pub mod ui;
pub mod song;
pub mod utils;
