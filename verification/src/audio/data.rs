//! The frame hashes of one video.

use vstd::prelude::*;

use super::matcher::is_monotonic;

verus! {

/// A stream of an opening region: its timestamps never decrease, and none is
/// the last moment of the time line, so that every run in it ends before
/// some time.
pub open spec fn is_opening_stream(s: Seq<(u32, u64)>) -> bool {
    is_monotonic(s) && forall|i: int| 0 <= i < s.len() ==> (#[trigger] s[i]).1 < u64::MAX
}

/// A stream of an ending region: its timestamps never decrease, and none is
/// the first moment of the time line, so that every run in it starts after
/// some time.
pub open spec fn is_ending_stream(s: Seq<(u32, u64)>) -> bool {
    is_monotonic(s) && forall|i: int| 0 <= i < s.len() ==> (#[trigger] s[i]).1 > 0
}

/// Version of the frame hash data.
#[derive(Clone, Copy, Debug, PartialEq, Eq, Structural)]
pub enum FrameHashesVersion {
    V1,
}

/// The magic number of version 1.
pub const FRAME_HASHES_V1_MAGIC: u32 = 12345;

impl FrameHashesVersion {
    /// The magic number that stands for this version in a file.
    pub open spec fn spec_magic(self) -> u32 {
        match self {
            FrameHashesVersion::V1 => FRAME_HASHES_V1_MAGIC,
        }
    }

    /// The magic number that stands for this version in a file.
    pub fn magic(self) -> (m: u32)
        ensures
            m == self.spec_magic(),
    {
        match self {
            FrameHashesVersion::V1 => FRAME_HASHES_V1_MAGIC,
        }
    }
}

/// Frame hashes, version 1: the fingerprint streams of the opening region and
/// of the ending region, the length of audio behind each hash, and the MD5 of
/// the head of the video file, in hexadecimal.
#[derive(Debug)]
pub struct FrameHashesV1 {
    /// Fingerprint stream of the opening region.
    pub opening: Vec<(u32, u64)>,
    /// Fingerprint stream of the ending region; empty where endings were not
    /// analyzed.
    pub ending: Vec<(u32, u64)>,
    /// Length of audio behind each hash.
    pub hash_duration: u64,
    /// MD5 of the head of the video file, in hexadecimal.
    pub md5: String,
}

impl FrameHashesV1 {
    /// The opening stream is a stream of an opening region and the ending
    /// stream one of an ending region.
    pub open spec fn wf(&self) -> bool {
        is_opening_stream(self.opening@) && is_ending_stream(self.ending@)
    }

    /// Frame hashes from their parts.
    pub fn new(opening: Vec<(u32, u64)>, ending: Vec<(u32, u64)>, hash_duration: u64, md5: String) -> (r:
        Self)
        requires
            is_opening_stream(opening@),
            is_ending_stream(ending@),
        ensures
            r.wf(),
            r.opening == opening,
            r.ending == ending,
            r.hash_duration == hash_duration,
            r.md5 == md5,
    {
        FrameHashesV1 { opening, ending, hash_duration, md5 }
    }

    /// The fingerprint stream of the opening region.
    pub fn opening(&self) -> (s: &[(u32, u64)])
        ensures
            s@ == self.opening@,
    {
        self.opening.as_slice()
    }

    /// The fingerprint stream of the ending region.
    pub fn ending(&self) -> (s: &[(u32, u64)])
        ensures
            s@ == self.ending@,
    {
        self.ending.as_slice()
    }

    /// The length of audio behind each hash.
    pub fn hash_duration(&self) -> (d: u64)
        ensures
            d == self.hash_duration,
    {
        self.hash_duration
    }

    /// The MD5 of the head of the video file, in hexadecimal.
    pub fn md5(&self) -> (s: &str)
        ensures
            s@ == self.md5@,
    {
        self.md5.as_str()
    }
}

/// The data of some version.
#[derive(Debug)]
pub enum FrameHashesData {
    V1(FrameHashesV1),
}

/// What a record of frame hashes holds, as plain values.
pub struct FrameHashesView {
    /// Fingerprint stream of the opening region.
    pub opening: Seq<(u32, u64)>,
    /// Fingerprint stream of the ending region.
    pub ending: Seq<(u32, u64)>,
    /// Length of audio behind each hash.
    pub hash_duration: u64,
    /// MD5 of the head of the video file, in hexadecimal.
    pub md5: Seq<char>,
}

impl FrameHashesView {
    /// The opening stream is a stream of an opening region and the ending
    /// stream one of an ending region.
    pub open spec fn wf(self) -> bool {
        is_opening_stream(self.opening) && is_ending_stream(self.ending)
    }
}

/// The frame hashes of one video, with the version of their format.
#[derive(Debug)]
pub struct FrameHashes {
    /// Version of the data.
    pub version: FrameHashesVersion,
    /// Data of that version.
    pub data: FrameHashesData,
}

impl View for FrameHashes {
    type V = FrameHashesView;

    open spec fn view(&self) -> FrameHashesView {
        match self.data {
            FrameHashesData::V1(f) => FrameHashesView {
                opening: f.opening@,
                ending: f.ending@,
                hash_duration: f.hash_duration,
                md5: f.md5@,
            },
        }
    }
}

impl FrameHashes {
    /// The version names the variant of the data.
    pub open spec fn version_valid(&self) -> bool {
        match self.data {
            FrameHashesData::V1(_) => self.version == FrameHashesVersion::V1,
        }
    }

    /// The version names the variant of the data, and each stream is one of
    /// its region.
    pub open spec fn wf(&self) -> bool {
        self.version_valid() && self@.wf()
    }

    /// Frame hashes of version 1.
    pub fn new_v1(opening: Vec<(u32, u64)>, ending: Vec<(u32, u64)>, hash_duration: u64, md5: String) -> (r:
        Self)
        requires
            is_opening_stream(opening@),
            is_ending_stream(ending@),
        ensures
            r.wf(),
            r@ == (FrameHashesView { opening: opening@, ending: ending@, hash_duration, md5: md5@ }),
    {
        FrameHashes {
            version: FrameHashesVersion::V1,
            data: FrameHashesData::V1(FrameHashesV1::new(opening, ending, hash_duration, md5)),
        }
    }

    /// Whether the version names the variant of the data.
    pub fn is_version_valid(&self) -> (b: bool)
        ensures
            b == self.version_valid(),
    {
        match &self.data {
            FrameHashesData::V1(_) => match self.version {
                FrameHashesVersion::V1 => true,
            },
        }
    }

    /// The fingerprint stream of the opening region.
    pub fn opening_data(&self) -> (s: &[(u32, u64)])
        ensures
            s@ == self@.opening,
    {
        match &self.data {
            FrameHashesData::V1(f) => f.opening(),
        }
    }

    /// The fingerprint stream of the ending region.
    pub fn ending_data(&self) -> (s: &[(u32, u64)])
        ensures
            s@ == self@.ending,
    {
        match &self.data {
            FrameHashesData::V1(f) => f.ending(),
        }
    }

    /// The length of audio behind each hash.
    pub fn hash_duration(&self) -> (d: u64)
        ensures
            d == self@.hash_duration,
    {
        match &self.data {
            FrameHashesData::V1(f) => f.hash_duration(),
        }
    }

    /// The MD5 of the head of the video file, in hexadecimal.
    pub fn md5(&self) -> (s: &str)
        ensures
            s@ == self@.md5,
    {
        match &self.data {
            FrameHashesData::V1(f) => f.md5(),
        }
    }
}

} // verus!
