//! Configuration and result types of the comparator.

use vstd::prelude::*;

use super::{
    DEFAULT_HASH_MATCH_THRESHOLD, DEFAULT_MIN_ENDING_DURATION, DEFAULT_MIN_OPENING_DURATION,
    NANOS_PER_SEC,
};
use crate::error::Error;

verus! {

/// One run of matching hashes shared by two fingerprint streams.
#[derive(Clone, Copy, Debug, PartialEq, Eq)]
pub struct MatchEntry {
    /// Number of consecutive matching positions.
    pub run_length: usize,
    /// Timestamps of the first and last matching sample in the source.
    pub src_range: (u64, u64),
    /// Timestamps of the first and last matching sample in the destination.
    pub dst_range: (u64, u64),
    /// Simhash of the source hashes in the run.
    pub src_summary_hash: u32,
    /// Simhash of the destination hashes in the run.
    pub dst_summary_hash: u32,
    /// The source side of the run lies in the opening region.
    pub src_is_opening: bool,
    /// The source side of the run lies in the ending region.
    pub src_is_ending: bool,
    /// The destination side of the run lies in the opening region.
    pub dst_is_opening: bool,
    /// The destination side of the run lies in the ending region.
    pub dst_is_ending: bool,
    /// Length of audio behind each source hash.
    pub src_hash_window: u64,
    /// Length of audio behind each destination hash.
    pub dst_hash_window: u64,
}

impl MatchEntry {
    /// Both ranges run forward in time.
    pub open spec fn wf(self) -> bool {
        &&& self.src_range.0 <= self.src_range.1
        &&& self.dst_range.0 <= self.dst_range.1
    }
}

/// Every entry of `entries` is well formed.
pub open spec fn entries_wf(entries: Seq<MatchEntry>) -> bool {
    forall|i: int| 0 <= i < entries.len() ==> (#[trigger] entries[i]).wf()
}

/// What one pair of videos says about openings and endings, for each side.
#[derive(Debug)]
pub struct OpeningAndEndingInfo {
    /// The runs whose source side is an opening.
    pub src_openings: Vec<MatchEntry>,
    /// The runs whose destination side is an opening.
    pub dst_openings: Vec<MatchEntry>,
    /// The runs whose source side is an ending.
    pub src_endings: Vec<MatchEntry>,
    /// The runs whose destination side is an ending.
    pub dst_endings: Vec<MatchEntry>,
}

impl OpeningAndEndingInfo {
    /// Every entry in every bucket is well formed.
    pub open spec fn wf(&self) -> bool {
        &&& entries_wf(self.src_openings@)
        &&& entries_wf(self.dst_openings@)
        &&& entries_wf(self.src_endings@)
        &&& entries_wf(self.dst_endings@)
    }

    /// All four buckets are empty.
    pub open spec fn spec_is_empty(&self) -> bool {
        &&& self.src_openings@.len() == 0
        &&& self.dst_openings@.len() == 0
        &&& self.src_endings@.len() == 0
        &&& self.dst_endings@.len() == 0
    }

    /// Whether the pair gave no information at all.
    pub fn is_empty(&self) -> (b: bool)
        ensures
            b == self.spec_is_empty(),
    {
        self.src_openings.len() == 0 && self.dst_openings.len() == 0 && self.src_endings.len() == 0
            && self.dst_endings.len() == 0
    }
}

/// The result for one video: where its opening and its ending are, if found.
#[derive(Clone, Copy, Debug, PartialEq, Eq)]
pub struct SearchResult {
    /// Start and end of the opening.
    pub opening: Option<(u64, u64)>,
    /// Start and end of the ending.
    pub ending: Option<(u64, u64)>,
}

impl Default for SearchResult {
    fn default() -> (r: Self)
        ensures
            r.opening.is_none(),
            r.ending.is_none(),
    {
        SearchResult { opening: None, ending: None }
    }
}

/// Compares two or more videos through their frame hashes.
#[derive(Debug)]
pub struct Comparator {
    /// Paths of the videos.
    pub videos: Vec<String>,
    /// Whether endings are searched for too.
    pub include_endings: bool,
    /// Two hashes match when they differ in at most this many bits.
    pub hash_match_threshold: u32,
    /// An opening lasts at least this long.
    pub min_opening_duration: u64,
    /// An ending lasts at least this long.
    pub min_ending_duration: u64,
    /// By how much a reported range is shortened at either end.
    pub time_padding: u64,
}

impl Default for Comparator {
    fn default() -> (c: Self)
        ensures
            c.videos@.len() == 0,
            !c.include_endings,
            c.hash_match_threshold == DEFAULT_HASH_MATCH_THRESHOLD,
            c.min_opening_duration == DEFAULT_MIN_OPENING_DURATION * NANOS_PER_SEC,
            c.min_ending_duration == DEFAULT_MIN_ENDING_DURATION * NANOS_PER_SEC,
            c.time_padding == 0,
    {
        Comparator {
            videos: Vec::new(),
            include_endings: false,
            hash_match_threshold: DEFAULT_HASH_MATCH_THRESHOLD as u32,
            min_opening_duration: DEFAULT_MIN_OPENING_DURATION as u64 * NANOS_PER_SEC,
            min_ending_duration: DEFAULT_MIN_ENDING_DURATION as u64 * NANOS_PER_SEC,
            time_padding: 0,
        }
    }
}

impl Comparator {
    /// A comparator for the given videos, with the default settings.
    pub fn from_files(videos: Vec<String>) -> (c: Self)
        ensures
            c.videos == videos,
            !c.include_endings,
            c.hash_match_threshold == DEFAULT_HASH_MATCH_THRESHOLD,
            c.min_opening_duration == DEFAULT_MIN_OPENING_DURATION * NANOS_PER_SEC,
            c.min_ending_duration == DEFAULT_MIN_ENDING_DURATION * NANOS_PER_SEC,
            c.time_padding == 0,
    {
        let mut c = Comparator::default();
        c.videos = videos;
        c
    }

    /// The paths of the videos.
    pub fn videos(&self) -> (v: &[String])
        ensures
            v@ == self.videos@,
    {
        self.videos.as_slice()
    }

    /// The same comparator, searching for endings too or not.
    pub fn with_include_endings(self, include_endings: bool) -> (c: Self)
        ensures
            c == (Comparator { include_endings, ..self }),
    {
        let mut c = self;
        c.include_endings = include_endings;
        c
    }

    /// The same comparator with another hash match threshold.
    pub fn with_hash_match_threshold(self, hash_match_threshold: u32) -> (c: Self)
        ensures
            c == (Comparator { hash_match_threshold, ..self }),
    {
        let mut c = self;
        c.hash_match_threshold = hash_match_threshold;
        c
    }

    /// The same comparator with another minimum opening duration.
    pub fn with_min_opening_duration(self, min_opening_duration: u64) -> (c: Self)
        ensures
            c == (Comparator { min_opening_duration, ..self }),
    {
        let mut c = self;
        c.min_opening_duration = min_opening_duration;
        c
    }

    /// The same comparator with another minimum ending duration.
    pub fn with_min_ending_duration(self, min_ending_duration: u64) -> (c: Self)
        ensures
            c == (Comparator { min_ending_duration, ..self }),
    {
        let mut c = self;
        c.min_ending_duration = min_ending_duration;
        c
    }

    /// The same comparator with another time padding.
    pub fn with_time_padding(self, time_padding: u64) -> (c: Self)
        ensures
            c == (Comparator { time_padding, ..self }),
    {
        let mut c = self;
        c.time_padding = time_padding;
        c
    }

    /// Whether the settings are in range: the hash match threshold counts
    /// bits of a 32-bit hash.
    pub fn validate(&self) -> (r: Result<(), Error>)
        ensures
            self.hash_match_threshold <= 32 ==> r == Ok::<(), Error>(()),
            self.hash_match_threshold > 32 ==> r == Err::<(), Error>(Error::InvalidHashMatchThreshold),
    {
        if self.hash_match_threshold > 32 {
            Err(Error::InvalidHashMatchThreshold)
        } else {
            Ok(())
        }
    }
}

} // verus!
