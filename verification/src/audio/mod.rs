//! Openings and endings from audio streams.

pub mod aggregate;
pub mod analyzer;
pub mod backend;
pub mod codec;
pub mod comparator;
pub mod data;
pub mod driver;
pub mod matcher;
pub mod matcher_laws;
pub mod report;
pub mod search;
pub mod simhash;
pub mod task;

pub use analyzer::{
    Analyzer, DEFAULT_ENDING_SEARCH_PERCENTAGE, DEFAULT_HASH_DURATION,
    DEFAULT_OPENING_SEARCH_PERCENTAGE,
};
pub use backend::{Backend, MediaInfo};
pub use comparator::{Comparator, MatchEntry, OpeningAndEndingInfo, SearchResult};
pub use data::{FrameHashes, FrameHashesVersion};

use vstd::prelude::*;

verus! {

/// Nanoseconds in one second.
pub const NANOS_PER_SEC: u64 = 1_000_000_000;

/// Default hash match threshold.
///
/// Two frame hashes match when they differ in at most this many bits, out of 32.
pub const DEFAULT_HASH_MATCH_THRESHOLD: u16 = 10;

/// Default minimum opening duration, in seconds.
pub const DEFAULT_MIN_OPENING_DURATION: u16 = 20;

/// Default minimum ending duration, in seconds.
pub const DEFAULT_MIN_ENDING_DURATION: u16 = 20;

/// Default padding of reported ranges, in nanoseconds.
pub const DEFAULT_OPENING_AND_ENDING_TIME_PADDING: u64 = 0;

} // verus!
