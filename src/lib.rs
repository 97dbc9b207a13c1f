//! Removes non-dialogue annotations such as `[door slams]` or `(laughter)`
//! from SubRip subtitle files.

pub mod cues;
pub mod encoding;
pub mod error;
pub mod srt;

pub use cues::{remove_pattern_from_subs, Cue, Pattern, Time};
pub use encoding::read_file_with_encoding;
pub use error::DeccError;
pub use srt::{check_format, deccify_srt_contents, Options, DEFAULT_PATTERN};
