//! The analysis of one video, step by step.
//!
//! A task says what is to be done next, and is told what came of it:
//!
//! ```text
//! Idle -> ProvenanceChecked -> DecodingOpening -> [SeekingEnding -> DecodingEnding] -> [Persisting] -> Done
//! ```
//!
//! From `Idle` a task goes straight to `Done` where frame hashes on disk can
//! be used. Any step can end in `Failed`. `Done` and `Failed` are final.

use vstd::pervasive::unreached;
use vstd::prelude::*;

use super::analyzer::{
    cache_hit, comes_behind, is_cache_hit, push_fingerprint, rebase, rebased, seek_window, Analyzer,
    Fraction, SeekWindow,
};
use super::data::{FrameHashes, FrameHashesView};
use super::matcher::is_monotonic;
use super::simhash::simhash32_spec;
use super::NANOS_PER_SEC;
use crate::error::Error;

verus! {

/// Where the analysis of a video stands.
#[derive(Clone, Copy, Debug, PartialEq, Eq, Structural)]
pub enum AnalysisState {
    /// Nothing is known of the video yet.
    Idle,
    /// The checksum of the video is known, and no frame hashes on disk can be
    /// used.
    ProvenanceChecked,
    /// The opening region is being decoded.
    DecodingOpening,
    /// The stream is being moved to the start of the ending region.
    SeekingEnding,
    /// The ending region is being decoded.
    DecodingEnding,
    /// The frame hashes are being written.
    Persisting,
    /// The frame hashes are there.
    Done,
    /// The analysis has failed.
    Failed,
}

/// What is to be done next for a video.
#[derive(Clone, Copy, Debug, PartialEq, Eq, Structural)]
pub enum AnalysisAction {
    /// Open the video and report the duration of its audio stream.
    Open,
    /// Decode and fingerprint the stream from where it stands, up to the
    /// given time or, where none is given, to its end.
    Decode { until: Option<u64> },
    /// Go on decoding.
    Continue,
    /// Move the stream to the target, within the window.
    Seek(SeekWindow),
    /// Write the frame hashes next to the video.
    Persist,
    /// Nothing is left to do: the frame hashes are there.
    Finish,
    /// Nothing is left to do: the analysis has failed.
    Fail(Error),
}

/// The analysis of one video.
#[derive(Debug)]
pub struct AnalysisTask {
    /// Where the analysis stands.
    pub state: AnalysisState,
    /// The part of the video, from its start, in which an opening is looked
    /// for.
    pub opening_search_percentage: Fraction,
    /// The part of the video, up to its end, in which an ending is looked
    /// for.
    pub ending_search_percentage: Fraction,
    /// Whether the ending region is analyzed too.
    pub include_endings: bool,
    /// Whether frame hashes on disk are passed over.
    pub force: bool,
    /// Whether the frame hashes are to be written.
    pub persist: bool,
    /// Time between the starts of two hashes.
    pub hash_period: u64,
    /// Length of audio behind each hash.
    pub hash_duration: u64,
    /// Checksum of the head of the video.
    pub md5: String,
    /// Duration of the audio stream.
    pub duration: u64,
    /// Where the ending region starts.
    pub seek_offset: u64,
    /// The fingerprints of the opening region so far.
    pub opening: Vec<(u32, u64)>,
    /// The fingerprints of the ending region so far, counted from the start
    /// of the region while it is decoded.
    pub ending: Vec<(u32, u64)>,
    /// Whether the frame hashes were taken from disk.
    pub from_cache: bool,
    /// The frame hashes, once they are there.
    pub result: Option<FrameHashes>,
}

/// Every timestamp of the stream lies before `end`.
pub open spec fn all_before(s: Seq<(u32, u64)>, end: int) -> bool {
    forall|i: int| 0 <= i < s.len() ==> (#[trigger] s[i]).1 < end
}

/// Every timestamp of the stream, counted on from `offset`, lies no later
/// than `end`.
pub open spec fn all_within(s: Seq<(u32, u64)>, offset: int, end: int) -> bool {
    forall|i: int| 0 <= i < s.len() ==> (#[trigger] s[i]).1 + offset <= end
}

/// Every timestamp of the stream lies no earlier than `start` and no later
/// than `end`.
pub open spec fn all_between(s: Seq<(u32, u64)>, start: int, end: int) -> bool {
    forall|i: int| 0 <= i < s.len() ==> start <= (#[trigger] s[i]).1 <= end
}

/// A part of a duration is no more than the duration.
pub proof fn lemma_part_is_no_more(part: Fraction, duration: u64)
    requires
        part.millionths <= 1_000_000,
    ensures
        0 <= part.spec_of(duration) <= duration,
{
    assert(0 <= duration * part.millionths <= duration * 1_000_000) by (nonlinear_arith)
        requires
            0 <= part.millionths <= 1_000_000,
            0 <= duration,
    ;
}

impl AnalysisTask {
    /// Where the opening region of the video ends.
    pub open spec fn opening_end(&self) -> int {
        self.opening_search_percentage.spec_of(self.duration)
    }

    /// Where the ending region of the video starts.
    pub open spec fn ending_start(&self) -> int {
        self.duration * (1_000_000 - self.ending_search_percentage.millionths) / 1_000_000
    }

    /// One second to either side of the start of the ending region lies
    /// inside the stream.
    pub open spec fn can_seek(&self) -> bool {
        self.ending_start() >= NANOS_PER_SEC && self.ending_start() + NANOS_PER_SEC < self.duration
    }

    /// The stream that is being decoded: the opening stream while the
    /// opening region is decoded, else the ending stream.
    pub open spec fn current(&self) -> Seq<(u32, u64)> {
        if self.state == AnalysisState::DecodingOpening {
            self.opening@
        } else {
            self.ending@
        }
    }

    /// A fingerprint with this timestamp lies in the region that is being
    /// decoded: before the end of the opening region, or, counted on from the
    /// start of the ending region, no later than the end of the stream.
    pub open spec fn in_region(&self, timestamp: u64) -> bool {
        if self.state == AnalysisState::DecodingOpening {
            timestamp < self.opening_end()
        } else {
            timestamp + self.seek_offset <= self.duration
        }
    }

    /// The two tasks were given the same settings.
    pub open spec fn same_settings(&self, other: &AnalysisTask) -> bool {
        &&& self.opening_search_percentage == other.opening_search_percentage
        &&& self.ending_search_percentage == other.ending_search_percentage
        &&& self.include_endings == other.include_endings
        &&& self.force == other.force
        &&& self.persist == other.persist
        &&& self.hash_period == other.hash_period
        &&& self.hash_duration == other.hash_duration
    }

    /// The two tasks know the same of their video: its checksum, its
    /// duration and where its ending region starts.
    pub open spec fn same_video(&self, other: &AnalysisTask) -> bool {
        &&& self.md5 == other.md5
        &&& self.duration == other.duration
        &&& self.seek_offset == other.seek_offset
    }

    /// The two tasks hold the same fingerprints.
    pub open spec fn same_streams(&self, other: &AnalysisTask) -> bool {
        self.opening@ == other.opening@ && self.ending@ == other.ending@
    }

    /// The two tasks hold the same frame hashes, from the same place.
    pub open spec fn same_result(&self, other: &AnalysisTask) -> bool {
        self.from_cache == other.from_cache && self.result == other.result
    }

    /// The two tasks differ in nothing but where they stand.
    pub open spec fn same_but_state(&self, other: &AnalysisTask) -> bool {
        &&& self.same_settings(other)
        &&& self.same_video(other)
        &&& self.same_streams(other)
        &&& self.same_result(other)
    }

    /// `record` is what the analysis of the video comes to under the settings
    /// that were given: it carries the video's checksum and the hash duration
    /// that was asked for, its opening timestamps lie before the end of the
    /// opening region, its ending timestamps lie between the start of the
    /// ending region and the end of the stream, and it has no ending data
    /// where none was asked for.
    pub open spec fn is_record_of_run(&self, record: FrameHashesView) -> bool {
        &&& record.md5 == self.md5@
        &&& record.hash_duration == self.hash_duration
        &&& all_before(record.opening, self.opening_end())
        &&& all_between(record.ending, self.ending_start(), self.duration as int)
        &&& !self.include_endings ==> record.ending.len() == 0
    }

    /// The fractions are no more than the whole. The timestamps of both
    /// streams never decrease and lie in their regions, and a stream is empty
    /// before its region is decoded. While the ending region is sought or
    /// decoded, it starts where the seek went and can be reached. A task
    /// holds frame hashes once it is done or writing, and not before; frame
    /// hashes are well formed, and those that were not taken from disk are
    /// those of this run.
    pub open spec fn wf(&self) -> bool {
        &&& self.opening_search_percentage.millionths <= 1_000_000
        &&& self.ending_search_percentage.millionths <= 1_000_000
        &&& is_monotonic(self.opening@)
        &&& is_monotonic(self.ending@)
        &&& all_before(self.opening@, self.opening_end())
        &&& all_within(self.ending@, self.seek_offset as int, self.duration as int)
        &&& (self.state == AnalysisState::Idle || self.state == AnalysisState::ProvenanceChecked)
            ==> self.opening@.len() == 0
        &&& (self.state != AnalysisState::DecodingEnding && self.state != AnalysisState::Failed)
            ==> self.ending@.len() == 0
        &&& (self.state == AnalysisState::SeekingEnding || self.state
            == AnalysisState::DecodingEnding) ==> self.include_endings && self.seek_offset
            == self.ending_start() && self.can_seek()
        &&& (self.state == AnalysisState::Done || self.state == AnalysisState::Persisting)
            <==> (self.result.is_some() && self.state != AnalysisState::Failed)
        &&& self.result.is_some() ==> self.result.unwrap().wf()
        &&& (self.result.is_some() && !self.from_cache) ==> self.is_record_of_run(
            self.result.unwrap()@,
        )
    }

    /// A task for one video, with nothing known of the video yet.
    pub fn new(analyzer: &Analyzer, hash_period: u64, hash_duration: u64, persist: bool) -> (t: Self)
        requires
            analyzer.opening_search_percentage.millionths <= 1_000_000,
            analyzer.ending_search_percentage.millionths <= 1_000_000,
        ensures
            t.wf(),
            t.state == AnalysisState::Idle,
            t.opening_search_percentage == analyzer.opening_search_percentage,
            t.ending_search_percentage == analyzer.ending_search_percentage,
            t.include_endings == analyzer.include_endings,
            t.force == analyzer.force,
            t.persist == persist,
            t.hash_period == hash_period,
            t.hash_duration == hash_duration,
            t.md5@.len() == 0,
            t.duration == 0,
            t.seek_offset == 0,
            t.opening@.len() == 0,
            t.ending@.len() == 0,
            !t.from_cache,
            t.result.is_none(),
    {
        AnalysisTask {
            state: AnalysisState::Idle,
            opening_search_percentage: analyzer.opening_search_percentage,
            ending_search_percentage: analyzer.ending_search_percentage,
            include_endings: analyzer.include_endings,
            force: analyzer.force,
            persist,
            hash_period,
            hash_duration,
            md5: String::new(),
            duration: 0,
            seek_offset: 0,
            opening: Vec::new(),
            ending: Vec::new(),
            from_cache: false,
            result: None,
        }
    }

    /// The checksum of the video is known, and with it the frame hashes that
    /// lie next to the video, if any. Where the analysis is not forced and
    /// those carry the same checksum, they are the result and nothing is
    /// decoded. Else the video is to be opened. The task keeps the checksum
    /// either way, and nothing else of it changes.
    pub fn on_provenance(&mut self, md5: String, cached: Option<FrameHashes>) -> (action:
        AnalysisAction)
        requires
            old(self).wf(),
            old(self).state == AnalysisState::Idle,
            cached.is_some() ==> cached.unwrap().wf(),
        ensures
            final(self).wf(),
            final(self).same_settings(old(self)),
            final(self).same_streams(old(self)),
            final(self).md5 == md5,
            final(self).duration == old(self).duration,
            final(self).seek_offset == old(self).seek_offset,
            cached.is_some() && is_cache_hit(old(self).force, Some(cached.unwrap()@), md5@) ==> {
                &&& action == AnalysisAction::Finish
                &&& final(self).state == AnalysisState::Done
                &&& final(self).from_cache
                &&& final(self).result == cached
            },
            !(cached.is_some() && is_cache_hit(old(self).force, Some(cached.unwrap()@), md5@)) ==> {
                &&& action == AnalysisAction::Open
                &&& final(self).state == AnalysisState::ProvenanceChecked
                &&& !final(self).from_cache
                &&& final(self).result.is_none()
            },
    {
        let hit = cache_hit(self.force, &cached, md5.as_str());
        self.md5 = md5;
        if hit {
            self.result = cached;
            self.from_cache = true;
            self.state = AnalysisState::Done;
            AnalysisAction::Finish
        } else {
            self.result = None;
            self.from_cache = false;
            self.state = AnalysisState::ProvenanceChecked;
            AnalysisAction::Open
        }
    }

    /// The video is open and its audio stream lasts `duration`. The opening
    /// region is to be decoded: the stream from its start up to the opening
    /// fraction of its duration. The task keeps the duration, and nothing
    /// else of it changes.
    pub fn on_opened(&mut self, duration: u64) -> (action: AnalysisAction)
        requires
            old(self).wf(),
            old(self).state == AnalysisState::ProvenanceChecked,
        ensures
            final(self).wf(),
            final(self).state == AnalysisState::DecodingOpening,
            final(self).duration == duration,
            final(self).md5 == old(self).md5,
            final(self).seek_offset == old(self).seek_offset,
            final(self).same_settings(old(self)),
            final(self).same_streams(old(self)),
            final(self).same_result(old(self)),
            action == (AnalysisAction::Decode {
                until: Some(old(self).opening_search_percentage.spec_of(duration) as u64),
            }),
    {
        self.duration = duration;
        self.state = AnalysisState::DecodingOpening;
        AnalysisAction::Decode { until: Some(self.opening_search_percentage.of(duration)) }
    }

    /// A fingerprint has come out of the fingerprinter: its raw form and the
    /// time at which its window starts, counted from where decoding started.
    ///
    /// A fingerprint that lies outside the region that is being decoded is
    /// dropped, and decoding goes on. Else its simhash goes to the end of the
    /// stream that is being decoded; the analysis fails where the fingerprint
    /// lies before the last one of that stream. Nothing else of the task
    /// changes.
    pub fn on_fingerprint(&mut self, raw: &[u32], timestamp: u64) -> (action: AnalysisAction)
        requires
            old(self).wf(),
            old(self).state == AnalysisState::DecodingOpening || old(self).state
                == AnalysisState::DecodingEnding,
        ensures
            final(self).wf(),
            final(self).same_settings(old(self)),
            final(self).same_video(old(self)),
            final(self).same_result(old(self)),
            old(self).state == AnalysisState::DecodingOpening ==> final(self).ending@ == old(
                self,
            ).ending@,
            old(self).state == AnalysisState::DecodingEnding ==> final(self).opening@ == old(
                self,
            ).opening@,
            !old(self).in_region(timestamp) ==> {
                &&& action == AnalysisAction::Continue
                &&& final(self).state == old(self).state
                &&& final(self).same_streams(old(self))
            },
            old(self).in_region(timestamp) && comes_behind(old(self).current(), timestamp) ==> {
                &&& action == AnalysisAction::Continue
                &&& final(self).state == old(self).state
                &&& final(self).current() == old(self).current().push(
                    (simhash32_spec(raw@), timestamp),
                )
            },
            old(self).in_region(timestamp) && !comes_behind(old(self).current(), timestamp) ==> {
                &&& action == AnalysisAction::Fail(Error::DecodeError)
                &&& final(self).state == AnalysisState::Failed
                &&& final(self).same_streams(old(self))
            },
    {
        let inside = match self.state {
            AnalysisState::DecodingOpening => timestamp < self.opening_search_percentage.of(
                self.duration,
            ),
            _ => {
                assert(self.seek_offset <= self.duration);
                timestamp <= self.duration - self.seek_offset
            },
        };
        if !inside {
            return AnalysisAction::Continue;
        }
        let pushed = match self.state {
            AnalysisState::DecodingOpening => push_fingerprint(&mut self.opening, raw, timestamp),
            _ => push_fingerprint(&mut self.ending, raw, timestamp),
        };
        match pushed {
            Ok(()) => AnalysisAction::Continue,
            Err(e) => {
                self.state = AnalysisState::Failed;
                AnalysisAction::Fail(e)
            },
        }
    }

    /// The stream has been moved to the start of the ending region, which is
    /// to be decoded to the end of the stream. Nothing of the task changes
    /// but where it stands.
    pub fn on_sought(&mut self) -> (action: AnalysisAction)
        requires
            old(self).wf(),
            old(self).state == AnalysisState::SeekingEnding,
        ensures
            final(self).wf(),
            final(self).state == AnalysisState::DecodingEnding,
            final(self).same_but_state(old(self)),
            action == (AnalysisAction::Decode { until: None }),
    {
        self.state = AnalysisState::DecodingEnding;
        AnalysisAction::Decode { until: None }
    }

    /// The frame hashes have been written. Nothing of the task changes but
    /// where it stands.
    pub fn on_persisted(&mut self) -> (action: AnalysisAction)
        requires
            old(self).wf(),
            old(self).state == AnalysisState::Persisting,
        ensures
            final(self).wf(),
            final(self).state == AnalysisState::Done,
            final(self).same_but_state(old(self)),
            action == AnalysisAction::Finish,
    {
        self.state = AnalysisState::Done;
        AnalysisAction::Finish
    }

    /// Something outside has failed. Nothing of the task changes but where it
    /// stands.
    pub fn on_failure(&mut self, error: Error) -> (action: AnalysisAction)
        requires
            old(self).wf(),
            old(self).state != AnalysisState::Done,
        ensures
            final(self).wf(),
            final(self).state == AnalysisState::Failed,
            final(self).same_but_state(old(self)),
            action == AnalysisAction::Fail(error),
    {
        self.state = AnalysisState::Failed;
        AnalysisAction::Fail(error)
    }

    /// The opening region is done and the ending region comes next.
    pub open spec fn wants_ending(&self) -> bool {
        self.state == AnalysisState::DecodingOpening && self.include_endings
    }

    /// The stream is to be moved to the ending region next.
    pub open spec fn seeks_next(&self) -> bool {
        self.wants_ending() && self.can_seek()
    }

    /// The ending region comes next and cannot be reached.
    pub open spec fn seek_fails(&self) -> bool {
        self.wants_ending() && !self.can_seek()
    }

    /// Nothing is left to decode.
    pub open spec fn completes(&self) -> bool {
        !self.wants_ending()
    }

    /// The frame hashes that the task holds once nothing is left to decode:
    /// its opening stream, its ending stream counted from the start of the
    /// video, the hash duration and the checksum.
    pub open spec fn record(&self) -> FrameHashesView {
        FrameHashesView {
            opening: self.opening@,
            ending: rebased(self.ending@, self.seek_offset),
            hash_duration: self.hash_duration,
            md5: self.md5@,
        }
    }

    /// The region that was being decoded has come to its end. The settings,
    /// the checksum and the duration stay as they are.
    ///
    /// After the opening region, where endings are asked for, the stream is
    /// to be moved to the start of the ending region, which is the duration
    /// less its ending fraction; the analysis fails with
    /// `InvalidSeekTimestamp` where one second to either side of that does
    /// not lie inside the stream.
    ///
    /// Else the frame hashes are there: the fingerprints of the task leave it
    /// for the record, those of the ending region with the start of the
    /// region added to their timestamps, as the fingerprinter counts from
    /// where it was started. The frame hashes are to be written if and only
    /// if that was asked for.
    pub fn on_window_done(&mut self) -> (action: AnalysisAction)
        requires
            old(self).wf(),
            old(self).state == AnalysisState::DecodingOpening || old(self).state
                == AnalysisState::DecodingEnding,
        ensures
            final(self).wf(),
            final(self).same_settings(old(self)),
            final(self).md5 == old(self).md5,
            final(self).duration == old(self).duration,
            old(self).seeks_next() ==> {
                &&& final(self).state == AnalysisState::SeekingEnding
                &&& final(self).seek_offset == old(self).ending_start()
                &&& action == AnalysisAction::Seek(
                    SeekWindow {
                        target: old(self).ending_start() as u64,
                        min: (old(self).ending_start() - NANOS_PER_SEC) as u64,
                        max: (old(self).ending_start() + NANOS_PER_SEC) as u64,
                    },
                )
                &&& final(self).same_streams(old(self))
                &&& final(self).same_result(old(self))
            },
            old(self).seek_fails() ==> {
                &&& final(self).state == AnalysisState::Failed
                &&& action == AnalysisAction::Fail(Error::InvalidSeekTimestamp)
                &&& final(self).seek_offset == old(self).seek_offset
                &&& final(self).same_streams(old(self))
                &&& final(self).same_result(old(self))
            },
            old(self).completes() ==> {
                &&& final(self).result.is_some()
                &&& final(self).result.unwrap()@ == old(self).record()
                &&& old(self).is_record_of_run(old(self).record())
                &&& !final(self).from_cache
                &&& final(self).seek_offset == old(self).seek_offset
                &&& final(self).opening@.len() == 0
                &&& final(self).ending@.len() == 0
                &&& final(self).state == if old(self).persist {
                    AnalysisState::Persisting
                } else {
                    AnalysisState::Done
                }
                &&& action == if old(self).persist {
                    AnalysisAction::Persist
                } else {
                    AnalysisAction::Finish
                }
            },
    {
        proof {
            lemma_part_is_no_more(self.opening_search_percentage, self.duration);
        }
        let ending = match self.state {
            AnalysisState::DecodingOpening => {
                if self.include_endings {
                    let target = self.ending_search_percentage.complement().of(self.duration);
                    match seek_window(target, self.duration) {
                        Ok(window) => {
                            self.seek_offset = target;
                            self.state = AnalysisState::SeekingEnding;
                            return AnalysisAction::Seek(window);
                        },
                        Err(e) => {
                            self.state = AnalysisState::Failed;
                            return AnalysisAction::Fail(e);
                        },
                    }
                }
                assert(rebased(self.ending@, self.seek_offset) =~= Seq::<(u32, u64)>::empty());
                Vec::new()
            },
            _ => {
                let mut counted: Vec<(u32, u64)> = Vec::new();
                core::mem::swap(&mut self.ending, &mut counted);
                let ghost before = counted@;
                match rebase(counted, self.seek_offset) {
                    Some(moved) => {
                        assert forall|i: int| 0 <= i < moved@.len() implies (#[trigger] moved@[i]).1
                            > 0 && self.seek_offset <= moved@[i].1 <= self.duration by {
                            assert(before[i].1 + self.seek_offset <= self.duration);
                        }
                        moved
                    },
                    None => {
                        assert(before.last().1 + self.seek_offset <= self.duration);
                        unreached()
                    },
                }
            },
        };
        let mut opening: Vec<(u32, u64)> = Vec::new();
        core::mem::swap(&mut self.opening, &mut opening);
        assert forall|i: int| 0 <= i < opening@.len() implies (#[trigger] opening@[i]).1
            < u64::MAX by {}
        self.result = Some(FrameHashes::new_v1(opening, ending, self.hash_duration, self.md5.clone()));
        self.from_cache = false;
        if self.persist {
            self.state = AnalysisState::Persisting;
            AnalysisAction::Persist
        } else {
            self.state = AnalysisState::Done;
            AnalysisAction::Finish
        }
    }
}

} // verus!
