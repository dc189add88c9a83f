//! Detection of openings and endings shared by the episodes of a series,
//! from audio fingerprints alone.
//!
//! Times are whole nanoseconds held in a `u64`. A fingerprint stream is a
//! sequence of `(hash, timestamp)` pairs whose timestamps never decrease.

pub mod audio;
pub mod bits;
pub mod capi;
pub mod error;
pub mod util;

pub use error::Error;
