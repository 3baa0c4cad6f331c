//! Verified core of a structured-log viewer.
//!
//! The library owns the logic of the viewer: the follow engine that tracks a
//! read cursor across a growing, possibly rotated log file, the decoding of
//! one JSON log line into a record, the severity tables, and the rendering of
//! a record as colorized terminal text.  File and terminal I/O stay outside;
//! the surrounding program feeds the engine plain observations (bytes read,
//! reopen outcomes) and carries out the actions the engine returns.

pub mod engine;
pub mod follow_laws;
pub mod level;
pub mod parse;
pub mod record;
pub mod render;
pub mod text;
pub mod timefmt;

pub use engine::LogWatcher;
