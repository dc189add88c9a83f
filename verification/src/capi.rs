//! Result codes for callers that cannot take the library's error type.

use vstd::prelude::*;

use crate::audio::{
    Comparator, DEFAULT_HASH_MATCH_THRESHOLD, DEFAULT_MIN_ENDING_DURATION,
    DEFAULT_MIN_OPENING_DURATION,
};
use crate::error::Error;

verus! {

/// The outcome of a call, as a code.
#[derive(Clone, Copy, Debug, PartialEq, Eq, Structural)]
pub enum NeedleError {
    /// No error.
    Success,
    /// Invalid UTF-8 string.
    InvalidUtf8String,
    /// One or more pointer arguments passed into the function were null.
    NullArgument,
    /// One or more arguments were invalid (usually zero).
    InvalidArgument,
    /// Frame hash data was not found on disk.
    FrameHashDataNotFound,
    /// Frame hash data on disk has an invalid version.
    FrameHashDataInvalidVersion,
    /// Frame hash data on disk is not valid.
    InvalidFrameHashData,
    /// Comparator needs at least two video paths.
    ComparatorMinimumPaths,
    /// Analyzer hash period specified was invalid.
    AnalyzerInvalidHashPeriod,
    /// Analyzer hash duration specified was too short.
    AnalyzerInvalidHashDuration,
    /// Reading or writing failed.
    IOError,
    /// Unknown error.
    Unknown,
}

/// The code that stands for an error of the library.
pub open spec fn code_of(err: Error) -> NeedleError {
    match err {
        Error::FrameHashDataNotFound => NeedleError::FrameHashDataNotFound,
        Error::FrameHashDataInvalidVersion => NeedleError::FrameHashDataInvalidVersion,
        Error::FrameHashDataCorrupt => NeedleError::InvalidFrameHashData,
        Error::InvalidHashPeriod => NeedleError::AnalyzerInvalidHashPeriod,
        Error::InvalidHashDuration => NeedleError::AnalyzerInvalidHashDuration,
        Error::IOError => NeedleError::IOError,
        _ => NeedleError::Unknown,
    }
}

/// What a code says, in words.
pub open spec fn message_of(error: NeedleError) -> Seq<char> {
    match error {
        NeedleError::Success => "No error"@,
        NeedleError::InvalidUtf8String => "Invalid UTF-8 string"@,
        NeedleError::NullArgument => "Input argument is NULL"@,
        NeedleError::InvalidArgument => "One or more input arguments were invalid (usually zero)"@,
        NeedleError::FrameHashDataNotFound => "Frame hash data not found on disk"@,
        NeedleError::FrameHashDataInvalidVersion => "Frame hash data has an invalid version"@,
        NeedleError::InvalidFrameHashData => "Invalid frame hash data read from disk"@,
        NeedleError::ComparatorMinimumPaths => "Comparator requires at least 2 video paths"@,
        NeedleError::AnalyzerInvalidHashPeriod => "Analyzer hash period must be greater than 0"@,
        NeedleError::AnalyzerInvalidHashDuration => "Analyzer hash duration must be greater than 3 seconds"@,
        NeedleError::IOError => "I/O error"@,
        NeedleError::Unknown => "Unknown error occurred; please re-run with logging enabled"@,
    }
}

/// What a code says as a sentence of its own: as `message_of`, but that an
/// invalid version ends with a full stop.
pub open spec fn sentence_of(error: NeedleError) -> Seq<char> {
    match error {
        NeedleError::FrameHashDataInvalidVersion => "Frame hash data has an invalid version."@,
        _ => message_of(error),
    }
}

impl NeedleError {
    /// What the code says, in words.
    pub fn message(&self) -> (s: &'static str)
        ensures
            s@ == message_of(*self),
    {
        match self {
            NeedleError::Success => "No error",
            NeedleError::InvalidUtf8String => "Invalid UTF-8 string",
            NeedleError::NullArgument => "Input argument is NULL",
            NeedleError::InvalidArgument => "One or more input arguments were invalid (usually zero)",
            NeedleError::FrameHashDataNotFound => "Frame hash data not found on disk",
            NeedleError::FrameHashDataInvalidVersion => "Frame hash data has an invalid version",
            NeedleError::InvalidFrameHashData => "Invalid frame hash data read from disk",
            NeedleError::ComparatorMinimumPaths => "Comparator requires at least 2 video paths",
            NeedleError::AnalyzerInvalidHashPeriod => "Analyzer hash period must be greater than 0",
            NeedleError::AnalyzerInvalidHashDuration => "Analyzer hash duration must be greater than 3 seconds",
            NeedleError::IOError => "I/O error",
            NeedleError::Unknown => "Unknown error occurred; please re-run with logging enabled",
        }
    }

    /// The code that stands for an error of the library.
    pub fn from_error(err: Error) -> (code: NeedleError)
        ensures
            code == code_of(err),
    {
        match err {
            Error::FrameHashDataNotFound => NeedleError::FrameHashDataNotFound,
            Error::FrameHashDataInvalidVersion => NeedleError::FrameHashDataInvalidVersion,
            Error::FrameHashDataCorrupt => NeedleError::InvalidFrameHashData,
            Error::InvalidHashPeriod => NeedleError::AnalyzerInvalidHashPeriod,
            Error::InvalidHashDuration => NeedleError::AnalyzerInvalidHashDuration,
            Error::IOError => NeedleError::IOError,
            _ => NeedleError::Unknown,
        }
    }

    /// The code of a result: `Success` for a success, else the code of the error.
    pub fn from_result<T>(result: &Result<T, Error>) -> (code: NeedleError)
        ensures
            code == match *result {
                Ok(_) => NeedleError::Success,
                Err(e) => code_of(e),
            },
    {
        match result {
            Ok(_) => NeedleError::Success,
            Err(e) => NeedleError::from_error(*e),
        }
    }
}

/// What a code says, as a sentence of its own.
pub fn needle_error_to_str(error: NeedleError) -> (s: &'static str)
    ensures
        s@ == sentence_of(error),
{
    match error {
        NeedleError::FrameHashDataInvalidVersion => "Frame hash data has an invalid version.",
        _ => error.message(),
    }
}

/// A comparator behind a handle.
#[derive(Debug)]
pub struct NeedleAudioComparator(pub Comparator);

/// Makes a comparator for a handle. A comparator needs two videos at least.
pub fn needle_audio_comparator_new(
    paths: Vec<String>,
    include_endings: bool,
    hash_match_threshold: u16,
    min_opening_duration: u16,
    min_ending_duration: u16,
    time_padding: u64,
) -> (r: Result<NeedleAudioComparator, NeedleError>)
    ensures
        paths@.len() < 2 ==> r == Err::<NeedleAudioComparator, NeedleError>(
            NeedleError::ComparatorMinimumPaths,
        ),
        paths@.len() >= 2 ==> r.is_ok() && r.unwrap().0 == (Comparator {
            videos: paths,
            include_endings,
            hash_match_threshold: hash_match_threshold as u32,
            min_opening_duration: (min_opening_duration * 1_000_000_000) as u64,
            min_ending_duration: (min_ending_duration * 1_000_000_000) as u64,
            time_padding,
        }),
{
    if paths.len() < 2 {
        return Err(NeedleError::ComparatorMinimumPaths);
    }
    let comparator = Comparator::from_files(paths).with_include_endings(
        include_endings,
    ).with_hash_match_threshold(hash_match_threshold as u32).with_min_opening_duration(
        min_opening_duration as u64 * 1_000_000_000,
    ).with_min_ending_duration(min_ending_duration as u64 * 1_000_000_000).with_time_padding(
        time_padding,
    );
    Ok(NeedleAudioComparator(comparator))
}

/// Makes a comparator for a handle, with the default settings.
pub fn needle_audio_comparator_new_default(paths: Vec<String>) -> (r: Result<
    NeedleAudioComparator,
    NeedleError,
>)
    ensures
        paths@.len() < 2 ==> r == Err::<NeedleAudioComparator, NeedleError>(
            NeedleError::ComparatorMinimumPaths,
        ),
        paths@.len() >= 2 ==> r.is_ok() && r.unwrap().0 == (Comparator {
            videos: paths,
            include_endings: false,
            hash_match_threshold: DEFAULT_HASH_MATCH_THRESHOLD as u32,
            min_opening_duration: (DEFAULT_MIN_OPENING_DURATION * 1_000_000_000) as u64,
            min_ending_duration: (DEFAULT_MIN_ENDING_DURATION * 1_000_000_000) as u64,
            time_padding: 0,
        }),
{
    needle_audio_comparator_new(
        paths,
        false,
        DEFAULT_HASH_MATCH_THRESHOLD,
        DEFAULT_MIN_OPENING_DURATION,
        DEFAULT_MIN_ENDING_DURATION,
        0,
    )
}

} // verus!
