//! Library for inspecting technical metadata of audio files.
//!
//! The library holds the logic of the tool: classifying candidate paths by
//! extension, turning resolved file-system entries into an ordered list of
//! audio files, deriving duration and bitrate from probe results, normalizing
//! tag keys, and rendering results as text, JSON or CSV. File and stream I/O,
//! and the probing engine itself, live outside the library and hand it plain
//! values.

pub mod strutil;
pub mod classify;
pub mod info;
pub mod extract;
pub mod discover;
pub mod batch;
pub mod render_text;
pub mod render_csv;
pub mod render_json;
