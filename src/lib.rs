//! Moving playlists and the media files they name from a music library to a
//! device, with a failure log that a later run can retry.
//!
//! - `playlist_scanner`: which lines of a playlist name media files, and the
//!   rewritten text of a playlist that uses backslashes.
//! - `media_file_info`, `media_set`: media items, sets of them without
//!   duplicates, and the items that a set of playlists names.
//! - `session`: one run; what is still to copy, what a success or a failure
//!   changes, and the counters of progress and summary.
//! - `error_tracker`: the ordered failures of a run, the log's text, and
//!   reading a log back.
//! - `cli`: the rules on the tool's arguments and what a run leaves to write.
//! - `logger`: verbose messages and their counters.
//! - `paths`, `text`: paths as strings, and text helpers.

pub mod cli;
pub mod error_tracker;
pub mod logger;
pub mod media_file_info;
pub mod media_set;
pub mod paths;
pub mod playlist_scanner;
pub mod session;
pub mod text;
