//! Error type shared by the whole library.

use vstd::prelude::*;

verus! {

/// Everything that can go wrong in the library.
#[derive(Clone, Copy, Debug, PartialEq, Eq, Structural)]
pub enum Error {
    /// Frame hash data was not found next to the video.
    FrameHashDataNotFound,
    /// The version tag of the frame hash data is not one this library writes.
    FrameHashDataInvalidVersion,
    /// The frame hash data ends early or holds a value out of range.
    FrameHashDataCorrupt,
    /// Endings were asked for, but one of the two videos has no ending data.
    FrameHashDataNoEnding,
    /// No paths were given to the analyzer.
    AnalyzerMissingPaths,
    /// A path does not exist.
    PathNotFound,
    /// The hash period is zero.
    InvalidHashPeriod,
    /// The hash duration is zero.
    InvalidHashDuration,
    /// A search fraction is not strictly between zero and one.
    InvalidSearchPercentage,
    /// The hash match threshold is above 32.
    InvalidHashMatchThreshold,
    /// The time padding leaves no room for the range that was detected.
    InvalidTimePadding,
    /// A seek target lies outside the stream.
    InvalidSeekTimestamp,
    /// The media library reported a failure.
    DecodeError,
    /// Reading or writing a file failed.
    IOError,
}

} // verus!
