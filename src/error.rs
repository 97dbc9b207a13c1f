use vstd::prelude::*;

verus! {

/// Every failure that the subtitle pipeline reports.
#[derive(Debug, PartialEq, Eq)]
pub enum DeccError {
    /// A file could not be opened, read or written.
    Io { cause: String },
    /// The caller named an encoding, but the data carries a byte-order mark of another one.
    EncodingMismatch { requested: String, actual: String },
    /// The data holds byte sequences that are invalid in the selected encoding.
    MalformedInput { encoding: String },
    /// The annotation pattern is not a valid regular expression.
    InvalidPattern,
    /// The decoded text is not valid SubRip.
    ParseError,
    /// The input file's extension names no supported format.
    UnsupportedFormat,
}

} // verus!
