//! Search of one pair of videos, and of every pair of a list of videos.

use vstd::prelude::*;

use super::comparator::{entries_wf, Comparator, MatchEntry, OpeningAndEndingInfo};
use super::data::{is_ending_stream, is_opening_stream, FrameHashes, FrameHashesView};
use super::matcher::{entry_at, lemma_run_length_bound, run_length, StreamInfo};
use crate::error::Error;

verus! {

/// The four buckets into which the entries of a pair are put.
#[derive(Clone, Copy, Debug, PartialEq, Eq, Structural)]
pub enum Bucket {
    SrcOpenings,
    DstOpenings,
    SrcEndings,
    DstEndings,
}

/// Whether the flags of `e` put it into bucket `b`.
pub open spec fn in_bucket(e: MatchEntry, b: Bucket) -> bool {
    match b {
        Bucket::SrcOpenings => e.src_is_opening,
        Bucket::DstOpenings => e.dst_is_opening,
        Bucket::SrcEndings => e.src_is_ending,
        Bucket::DstEndings => e.dst_is_ending,
    }
}

/// The entries that belong into bucket `b`, in their order.
pub open spec fn select(entries: Seq<MatchEntry>, b: Bucket) -> Seq<MatchEntry>
    decreases entries.len(),
{
    if entries.len() == 0 {
        Seq::empty()
    } else {
        let before = select(entries.drop_last(), b);
        if in_bucket(entries.last(), b) {
            before.push(entries.last())
        } else {
            before
        }
    }
}

/// What the matcher is told about an opening stream: everything before the
/// last moment of the time line lies in the opening region and nothing in the
/// ending region. No timestamp of a well-formed record is that last moment.
pub open spec fn opening_stream_info(hash_window: u64) -> StreamInfo {
    StreamInfo { max_opening_time: u64::MAX, min_ending_time: u64::MAX, hash_window }
}

/// What the matcher is told about an ending stream: nothing in it lies in the
/// opening region, and the ending region begins right after time zero. No
/// timestamp of the ending stream of a well-formed record is zero.
pub open spec fn ending_stream_info(hash_window: u64) -> StreamInfo {
    StreamInfo { max_opening_time: 0, min_ending_time: 0, hash_window }
}

/// In the streams of two opening regions every run is an opening on both
/// sides and an ending on neither, so that no run is left out for where it
/// lies.
pub proof fn lemma_opening_runs_are_openings(
    src: Seq<(u32, u64)>,
    dst: Seq<(u32, u64)>,
    threshold: u32,
    src_window: u64,
    dst_window: u64,
    i: int,
    j: int,
)
    requires
        is_opening_stream(src),
        is_opening_stream(dst),
        0 <= i < src.len(),
        0 <= j < dst.len(),
        run_length(src, dst, threshold, i, j) > 0,
    ensures
        ({
            let e = entry_at(
                src,
                dst,
                threshold,
                opening_stream_info(src_window),
                opening_stream_info(dst_window),
                i,
                j,
            );
            e.src_is_opening && e.dst_is_opening && !e.src_is_ending && !e.dst_is_ending
        }),
{
    lemma_run_length_bound(src, dst, threshold, i, j);
}

/// In the streams of two ending regions every run is an ending on both sides
/// and an opening on neither, so that no run is left out for where it lies.
pub proof fn lemma_ending_runs_are_endings(
    src: Seq<(u32, u64)>,
    dst: Seq<(u32, u64)>,
    threshold: u32,
    src_window: u64,
    dst_window: u64,
    i: int,
    j: int,
)
    requires
        is_ending_stream(src),
        is_ending_stream(dst),
        0 <= i < src.len(),
        0 <= j < dst.len(),
        run_length(src, dst, threshold, i, j) > 0,
    ensures
        ({
            let e = entry_at(
                src,
                dst,
                threshold,
                ending_stream_info(src_window),
                ending_stream_info(dst_window),
                i,
                j,
            );
            e.src_is_ending && e.dst_is_ending && !e.src_is_opening && !e.dst_is_opening
        }),
{
    lemma_run_length_bound(src, dst, threshold, i, j);
}

/// Puts each entry into every bucket that its flags name.
fn distribute(info: OpeningAndEndingInfo, entries: &Vec<MatchEntry>) -> (out: OpeningAndEndingInfo)
    requires
        info.wf(),
        entries_wf(entries@),
    ensures
        out.wf(),
        out.src_openings@ == info.src_openings@ + select(entries@, Bucket::SrcOpenings),
        out.dst_openings@ == info.dst_openings@ + select(entries@, Bucket::DstOpenings),
        out.src_endings@ == info.src_endings@ + select(entries@, Bucket::SrcEndings),
        out.dst_endings@ == info.dst_endings@ + select(entries@, Bucket::DstEndings),
{
    let ghost start = info;
    let mut out = info;
    let mut k: usize = 0;
    while k < entries.len()
        invariant
            0 <= k <= entries.len(),
            entries_wf(entries@),
            out.wf(),
            out.src_openings@ == start.src_openings@ + select(
                entries@.take(k as int),
                Bucket::SrcOpenings,
            ),
            out.dst_openings@ == start.dst_openings@ + select(
                entries@.take(k as int),
                Bucket::DstOpenings,
            ),
            out.src_endings@ == start.src_endings@ + select(
                entries@.take(k as int),
                Bucket::SrcEndings,
            ),
            out.dst_endings@ == start.dst_endings@ + select(
                entries@.take(k as int),
                Bucket::DstEndings,
            ),
        decreases entries.len() - k,
    {
        let e = entries[k];
        proof {
            assert(entries@[k as int].wf());
            assert(entries@.take(k + 1).drop_last() == entries@.take(k as int));
            assert(entries@.take(k + 1).last() == e);
        }
        if e.src_is_opening {
            out.src_openings.push(e);
        }
        if e.src_is_ending {
            out.src_endings.push(e);
        }
        if e.dst_is_opening {
            out.dst_openings.push(e);
        }
        if e.dst_is_ending {
            out.dst_endings.push(e);
        }
        k += 1;
    }
    assert(entries@.take(k as int) == entries@);
    out
}

impl Comparator {
    /// The runs that the opening streams of two videos share.
    pub open spec fn opening_matches(&self, src: FrameHashesView, dst: FrameHashesView) -> Seq<
        MatchEntry,
    > {
        self.common_hash_matches(
            src.opening,
            dst.opening,
            opening_stream_info(src.hash_duration),
            opening_stream_info(dst.hash_duration),
        )
    }

    /// The runs that the ending streams of two videos share.
    pub open spec fn ending_matches(&self, src: FrameHashesView, dst: FrameHashesView) -> Seq<
        MatchEntry,
    > {
        self.common_hash_matches(
            src.ending,
            dst.ending,
            ending_stream_info(src.hash_duration),
            ending_stream_info(dst.hash_duration),
        )
    }

    /// What bucket `b` of a pair holds: what belongs there of the runs of the
    /// opening streams, then, where endings are asked for, of the runs of the
    /// ending streams.
    pub open spec fn pair_bucket(&self, src: FrameHashesView, dst: FrameHashesView, b: Bucket) -> Seq<
        MatchEntry,
    > {
        select(self.opening_matches(src, dst), b) + if self.include_endings {
            select(self.ending_matches(src, dst), b)
        } else {
            Seq::empty()
        }
    }

    /// Endings are asked for and one of the two videos has no ending data.
    pub open spec fn lacks_ending(&self, src: FrameHashesView, dst: FrameHashesView) -> bool {
        self.include_endings && (src.ending.len() == 0 || dst.ending.len() == 0)
    }

    /// `info` holds the four buckets of the pair.
    pub open spec fn is_pair_info(
        &self,
        info: &OpeningAndEndingInfo,
        src: FrameHashesView,
        dst: FrameHashesView,
    ) -> bool {
        &&& info.wf()
        &&& info.src_openings@ == self.pair_bucket(src, dst, Bucket::SrcOpenings)
        &&& info.dst_openings@ == self.pair_bucket(src, dst, Bucket::DstOpenings)
        &&& info.src_endings@ == self.pair_bucket(src, dst, Bucket::SrcEndings)
        &&& info.dst_endings@ == self.pair_bucket(src, dst, Bucket::DstEndings)
    }

    /// Searches one pair of videos: matches the opening streams and, where
    /// endings are asked for, the ending streams, and puts every accepted run
    /// into each bucket that its flags name. Where endings are asked for and a
    /// video has no ending data, the answer is `FrameHashDataNoEnding`.
    pub fn find_opening_and_ending(&self, src_hashes: &FrameHashes, dst_hashes: &FrameHashes) -> (r:
        Result<OpeningAndEndingInfo, Error>)
        requires
            src_hashes.wf(),
            dst_hashes.wf(),
        ensures
            self.lacks_ending(src_hashes@, dst_hashes@) ==> r == Err::<OpeningAndEndingInfo, Error>(
                Error::FrameHashDataNoEnding,
            ),
            !self.lacks_ending(src_hashes@, dst_hashes@) ==> r.is_ok() && self.is_pair_info(
                &r.unwrap(),
                src_hashes@,
                dst_hashes@,
            ),
    {
        let src_hash_duration = src_hashes.hash_duration();
        let dst_hash_duration = dst_hashes.hash_duration();
        let mut info = OpeningAndEndingInfo {
            src_openings: Vec::new(),
            dst_openings: Vec::new(),
            src_endings: Vec::new(),
            dst_endings: Vec::new(),
        };
        let openings = self.longest_common_hash_match(
            src_hashes.opening_data(),
            dst_hashes.opening_data(),
            StreamInfo {
                max_opening_time: u64::MAX,
                min_ending_time: u64::MAX,
                hash_window: src_hash_duration,
            },
            StreamInfo {
                max_opening_time: u64::MAX,
                min_ending_time: u64::MAX,
                hash_window: dst_hash_duration,
            },
        );
        info = distribute(info, &openings);
        if self.include_endings {
            if src_hashes.ending_data().len() == 0 || dst_hashes.ending_data().len() == 0 {
                return Err(Error::FrameHashDataNoEnding);
            }
            let endings = self.longest_common_hash_match(
                src_hashes.ending_data(),
                dst_hashes.ending_data(),
                StreamInfo { max_opening_time: 0, min_ending_time: 0, hash_window: src_hash_duration },
                StreamInfo { max_opening_time: 0, min_ending_time: 0, hash_window: dst_hash_duration },
            );
            info = distribute(info, &endings);
        }
        Ok(info)
    }

    /// Searches the pair of the videos at two positions of `frame_hash_map`.
    pub fn search(&self, src_idx: usize, dst_idx: usize, frame_hash_map: &[FrameHashes]) -> (r: Result<
        OpeningAndEndingInfo,
        Error,
    >)
        requires
            src_idx < frame_hash_map@.len(),
            dst_idx < frame_hash_map@.len(),
            frame_hash_map@[src_idx as int].wf(),
            frame_hash_map@[dst_idx as int].wf(),
        ensures
            self.lacks_ending(frame_hash_map@[src_idx as int]@, frame_hash_map@[dst_idx as int]@)
                ==> r == Err::<OpeningAndEndingInfo, Error>(Error::FrameHashDataNoEnding),
            !self.lacks_ending(frame_hash_map@[src_idx as int]@, frame_hash_map@[dst_idx as int]@)
                ==> r.is_ok() && self.is_pair_info(
                &r.unwrap(),
                frame_hash_map@[src_idx as int]@,
                frame_hash_map@[dst_idx as int]@,
            ),
    {
        self.find_opening_and_ending(&frame_hash_map[src_idx], &frame_hash_map[dst_idx])
    }
}

} // verus!
