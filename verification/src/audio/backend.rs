//! What a source of media has to offer.

use vstd::prelude::*;

use crate::error::Error;

verus! {

/// What is known of a piece of media.
#[derive(Clone, Copy, Debug, PartialEq, Eq)]
pub struct MediaInfo {
    /// How long it lasts, in nanoseconds.
    pub length: u64,
}

/// A source of media: opens a file, tells what is in it, and reads one of its
/// streams.
pub trait Backend: Sized {
    /// Opens the media at a path.
    fn new(path: &str) -> Result<Self, Error>;

    /// What is known of the media.
    fn info(&self) -> Result<MediaInfo, Error>;

    /// Chooses the stream to read.
    fn select_stream(&mut self, index: usize) -> Result<(), Error>;
}

} // verus!
