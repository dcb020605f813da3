//! Errors that a read request reports to its caller.
use vstd::prelude::*;

verus! {

/// Why a read request failed.
#[derive(PartialEq, Eq, Structural, Debug, Clone, Copy)]
pub enum ReadError {
    /// The offset was 0; lines are counted from 1.
    OffsetZero,
    /// The limit was 0.
    LimitZero,
    /// `max_lines` was given as 0.
    MaxLinesZero,
    /// The path was not absolute.
    NotAbsolute,
    /// The offset lies past the last line, or there are no lines.
    OffsetPastEnd,
    /// The anchor line is 0 or lies past the last line.
    AnchorPastEnd,
    /// The file holds no text.
    EmptyFile,
    /// The window asked for holds no line.
    SliceEmpty,
}

impl ReadError {
    /// The message shown to the caller.
    pub fn message(&self) -> (r: String)
        ensures
            r@ == self.message_text(),
    {
        match self {
            ReadError::OffsetZero => String::from_str("offset must be a 1-indexed line number"),
            ReadError::LimitZero => String::from_str("limit must be greater than zero"),
            ReadError::MaxLinesZero => String::from_str("max_lines must be greater than zero"),
            ReadError::NotAbsolute => String::from_str("file_path must be an absolute path"),
            ReadError::OffsetPastEnd => String::from_str("offset exceeds file length"),
            ReadError::AnchorPastEnd => String::from_str("anchor_line exceeds file length"),
            ReadError::EmptyFile => String::from_str("file is empty; nothing to read"),
            ReadError::SliceEmpty => String::from_str(
                "offset exceeds file length or file is empty",
            ),
        }
    }

    pub open spec fn message_text(&self) -> Seq<char> {
        match self {
            ReadError::OffsetZero => "offset must be a 1-indexed line number"@,
            ReadError::LimitZero => "limit must be greater than zero"@,
            ReadError::MaxLinesZero => "max_lines must be greater than zero"@,
            ReadError::NotAbsolute => "file_path must be an absolute path"@,
            ReadError::OffsetPastEnd => "offset exceeds file length"@,
            ReadError::AnchorPastEnd => "anchor_line exceeds file length"@,
            ReadError::EmptyFile => "file is empty; nothing to read"@,
            ReadError::SliceEmpty => "offset exceeds file length or file is empty"@,
        }
    }
}

} // verus!
