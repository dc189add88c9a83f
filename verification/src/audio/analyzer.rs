//! Analysis of one video into frame hashes.
//!
//! Decoding and fingerprinting are done by the caller. This module holds what
//! is decided in between: whether frame hashes on disk can be used, how long
//! the regions are in which openings and endings are looked for, which
//! packets count, and how the fingerprints become the two streams of a
//! record.

use vstd::prelude::*;
use vstd::utf8::{encode_utf8, encode_utf8_decode_utf8};

use super::data::{FrameHashes, FrameHashesView};
use super::matcher::is_monotonic;
use super::simhash::{simhash32, simhash32_spec};
use super::task::{AnalysisState, AnalysisTask};
use super::NANOS_PER_SEC;
use crate::error::Error;

verus! {

/// A part of a whole, in millionths.
#[derive(Clone, Copy, Debug, PartialEq, Eq, Structural)]
pub struct Fraction {
    /// How many millionths of the whole.
    pub millionths: u32,
}

/// Default part of a video, from its start, in which an opening is looked
/// for, in millionths.
pub const DEFAULT_OPENING_SEARCH_PERCENTAGE: u32 = 500_000;

/// Default part of a video, up to its end, in which an ending is looked for,
/// in millionths.
pub const DEFAULT_ENDING_SEARCH_PERCENTAGE: u32 = 250_000;

/// Default length of audio behind each hash, in nanoseconds.
pub const DEFAULT_HASH_DURATION: u64 = 300_000_000;

impl Fraction {
    /// The fraction lies strictly between nothing and the whole.
    pub open spec fn is_proper(self) -> bool {
        0 < self.millionths < 1_000_000
    }

    /// This part of `duration`, rounded down.
    pub open spec fn spec_of(self, duration: u64) -> int {
        duration * self.millionths / 1_000_000
    }

    /// This part of `duration`, rounded down.
    pub fn of(self, duration: u64) -> (part: u64)
        requires
            self.millionths <= 1_000_000,
        ensures
            part == self.spec_of(duration),
            part <= duration,
    {
        assert(0 <= duration * self.millionths <= duration * 1_000_000) by (nonlinear_arith)
            requires
                0 <= self.millionths <= 1_000_000,
                0 <= duration,
        ;
        let product = duration as u128 * self.millionths as u128;
        (product / 1_000_000) as u64
    }

    /// What is left of the whole.
    pub fn complement(self) -> (rest: Fraction)
        requires
            self.millionths <= 1_000_000,
        ensures
            rest.millionths == 1_000_000 - self.millionths,
    {
        Fraction { millionths: 1_000_000 - self.millionths }
    }
}

/// Analyzes videos into frame hashes.
#[derive(Debug)]
pub struct Analyzer {
    /// Paths of the videos.
    pub videos: Vec<String>,
    /// The part of a video, from its start, in which an opening is looked for.
    pub opening_search_percentage: Fraction,
    /// The part of a video, up to its end, in which an ending is looked for.
    pub ending_search_percentage: Fraction,
    /// Whether the ending region is analyzed too.
    pub include_endings: bool,
    /// Whether the decoder may use several threads.
    pub threaded_decoding: bool,
    /// Whether frame hashes on disk are passed over.
    pub force: bool,
}

impl Default for Analyzer {
    fn default() -> (a: Self)
        ensures
            a.videos@.len() == 0,
            a.opening_search_percentage.millionths == DEFAULT_OPENING_SEARCH_PERCENTAGE,
            a.ending_search_percentage.millionths == DEFAULT_ENDING_SEARCH_PERCENTAGE,
            !a.include_endings,
            !a.threaded_decoding,
            !a.force,
    {
        Analyzer {
            videos: Vec::new(),
            opening_search_percentage: Fraction { millionths: DEFAULT_OPENING_SEARCH_PERCENTAGE },
            ending_search_percentage: Fraction { millionths: DEFAULT_ENDING_SEARCH_PERCENTAGE },
            include_endings: false,
            threaded_decoding: false,
            force: false,
        }
    }
}

/// The ratio of seconds to the units in which a stream counts time.
#[derive(Clone, Copy, Debug, PartialEq, Eq, Structural)]
pub struct TimeBase {
    /// Seconds in `denominator` units.
    pub numerator: u32,
    /// Units in `numerator` seconds.
    pub denominator: u32,
}

/// A time in units of the time base as nanoseconds, rounded down.
pub open spec fn timestamp_nanos(time_base: TimeBase, raw: i64) -> int {
    raw * time_base.numerator * 1_000_000_000 / (time_base.denominator as int)
}

/// A time in nanoseconds in units of the time base, rounded down.
pub open spec fn timestamp_units(time_base: TimeBase, nanos: u64) -> int {
    nanos * time_base.denominator / (time_base.numerator * 1_000_000_000)
}

/// Converts a time in units of the time base into nanoseconds. There is no
/// answer for a negative time, for a time base with a zero denominator, and
/// for a time that does not fit into the time line.
pub fn to_timestamp(time_base: TimeBase, raw_timestamp: i64) -> (t: Option<u64>)
    ensures
        t.is_some() <==> raw_timestamp >= 0 && time_base.denominator > 0 && timestamp_nanos(
            time_base,
            raw_timestamp,
        ) <= u64::MAX,
        t.is_some() ==> t.unwrap() == timestamp_nanos(time_base, raw_timestamp),
{
    if raw_timestamp < 0 || time_base.denominator == 0 {
        return None;
    }
    assert(0 <= raw_timestamp * time_base.numerator <= 0x7fff_ffff_ffff_ffff * 0xffff_ffff)
        by (nonlinear_arith)
        requires
            0 <= raw_timestamp <= 0x7fff_ffff_ffff_ffff,
            0 <= time_base.numerator <= 0xffff_ffff,
    ;
    let scaled: u128 = raw_timestamp as u128 * time_base.numerator as u128;
    let nanos: u128 = scaled * 1_000_000_000 / time_base.denominator as u128;
    if nanos > u64::MAX as u128 {
        None
    } else {
        Some(nanos as u64)
    }
}

/// Converts a time in nanoseconds into units of the time base. There is no
/// answer for a time base with a zero numerator and for a time that does not
/// fit into 63 bits.
pub fn from_timestamp(time_base: TimeBase, nanos: u64) -> (t: Option<i64>)
    ensures
        t.is_some() <==> time_base.numerator > 0 && timestamp_units(time_base, nanos) <= i64::MAX,
        t.is_some() ==> t.unwrap() == timestamp_units(time_base, nanos),
{
    if time_base.numerator == 0 {
        return None;
    }
    assert(0 <= nanos * time_base.denominator <= 0xffff_ffff_ffff_ffff * 0xffff_ffff)
        by (nonlinear_arith)
        requires
            0 <= nanos <= 0xffff_ffff_ffff_ffff,
            0 <= time_base.denominator <= 0xffff_ffff,
    ;
    let scaled: u128 = nanos as u128 * time_base.denominator as u128;
    let units: u128 = scaled / (time_base.numerator as u128 * 1_000_000_000);
    if units > i64::MAX as u128 {
        None
    } else {
        Some(units as i64)
    }
}

/// The duration of a stream in units of its time base: what the stream says
/// where it says anything, else what the container says, which counts in
/// thousandths of those units. There is no answer where neither says
/// anything.
pub fn stream_duration_raw(stream_duration: i64, container_duration: i64) -> (d: Option<i64>)
    ensures
        stream_duration >= 0 ==> d == Some(stream_duration),
        stream_duration < 0 && container_duration <= 0 ==> d.is_none(),
        stream_duration < 0 && container_duration > 0 ==> d == Some(
            (container_duration / 1000) as i64,
        ),
{
    if stream_duration >= 0 {
        Some(stream_duration)
    } else if container_duration <= 0 {
        None
    } else {
        Some(container_duration / 1000)
    }
}

/// How many fingerprinters run side by side so that one hash is due each
/// hash period: the hash duration divided by the hash period, rounded up.
pub fn fingerprinter_count(hash_duration: u64, hash_period: u64) -> (n: u64)
    requires
        hash_period > 0,
    ensures
        n == (hash_duration + hash_period - 1) / (hash_period as int),
{
    let sum: u128 = hash_duration as u128 + hash_period as u128 - 1;
    let n: u128 = sum / hash_period as u128;
    assert(n <= hash_duration) by (nonlinear_arith)
        requires
            hash_period >= 1,
            hash_duration >= 0,
            n == (hash_duration + hash_period - 1) / (hash_period as int),
    ;
    n as u64
}

/// What to do with a packet.
#[derive(Clone, Copy, Debug, PartialEq, Eq, Structural)]
pub enum PacketAction {
    /// The packet lies at or behind the end of the window: stop reading.
    Stop,
    /// The packet has no valid time: pass over it.
    Skip,
    /// Decode the packet.
    Decode,
}

/// Decides what to do with a packet from its presentation time, in units of
/// the time base. Reading stops at the first packet at or behind
/// `end_timestamp`; a packet at time zero or before is passed over, as a
/// trimmed video has such packets and their times mean nothing.
pub fn packet_action(pts: i64, end_timestamp: Option<i64>) -> (a: PacketAction)
    ensures
        a == if end_timestamp.is_some() && pts >= end_timestamp.unwrap() {
            PacketAction::Stop
        } else if pts <= 0 {
            PacketAction::Skip
        } else {
            PacketAction::Decode
        },
{
    match end_timestamp {
        Some(end) => {
            if pts >= end {
                return PacketAction::Stop;
            }
        },
        None => {},
    }
    if pts <= 0 {
        PacketAction::Skip
    } else {
        PacketAction::Decode
    }
}

/// The window around a seek target that the media library is given: one
/// second to either side.
#[derive(Clone, Copy, Debug, PartialEq, Eq, Structural)]
pub struct SeekWindow {
    /// Where the stream is to stand.
    pub target: u64,
    /// The earliest time that will do.
    pub min: u64,
    /// The latest time that will do.
    pub max: u64,
}

/// The window for a seek to `timestamp` in a stream of the given duration.
/// The seek is invalid where the window does not lie inside the stream.
pub fn seek_window(timestamp: u64, duration: u64) -> (r: Result<SeekWindow, Error>)
    ensures
        timestamp >= NANOS_PER_SEC && timestamp + NANOS_PER_SEC < duration ==> r == Ok::<
            SeekWindow,
            Error,
        >(
            SeekWindow {
                target: timestamp,
                min: (timestamp - NANOS_PER_SEC) as u64,
                max: (timestamp + NANOS_PER_SEC) as u64,
            },
        ),
        !(timestamp >= NANOS_PER_SEC && timestamp + NANOS_PER_SEC < duration) ==> r == Err::<
            SeekWindow,
            Error,
        >(Error::InvalidSeekTimestamp),
{
    if timestamp < NANOS_PER_SEC || timestamp > u64::MAX - NANOS_PER_SEC {
        return Err(Error::InvalidSeekTimestamp);
    }
    if timestamp + NANOS_PER_SEC >= duration {
        return Err(Error::InvalidSeekTimestamp);
    }
    Ok(SeekWindow { target: timestamp, min: timestamp - NANOS_PER_SEC, max: timestamp + NANOS_PER_SEC })
}

/// Number of bytes that `samples` frames of `channels` channels take as
/// signed 16-bit samples.
pub fn sample_bytes_len(samples: usize, channels: u16) -> (n: Option<usize>)
    ensures
        n.is_some() <==> samples * channels * 2 <= usize::MAX,
        n.is_some() ==> n.unwrap() == samples * channels * 2,
{
    assert(0 <= samples * channels <= 0xffff_ffff_ffff_ffff * 0xffff) by (nonlinear_arith)
        requires
            0 <= samples <= 0xffff_ffff_ffff_ffff,
            0 <= channels <= 0xffff,
    ;
    let total = samples as u128 * channels as u128 * 2;
    if total > usize::MAX as u128 {
        None
    } else {
        Some(total as usize)
    }
}

/// The stream with `offset` added to every timestamp.
pub open spec fn rebased(s: Seq<(u32, u64)>, offset: u64) -> Seq<(u32, u64)> {
    Seq::new(s.len(), |k: int| (s[k].0, (s[k].1 + offset) as u64))
}

/// Adds `offset` to every timestamp of a stream. There is no answer where a
/// timestamp would leave the time line.
pub fn rebase(s: Vec<(u32, u64)>, offset: u64) -> (r: Option<Vec<(u32, u64)>>)
    requires
        is_monotonic(s@),
    ensures
        r.is_some() <==> (s@.len() == 0 || s@.last().1 + offset <= u64::MAX),
        r.is_some() ==> r.unwrap()@ == rebased(s@, offset) && is_monotonic(r.unwrap()@),
{
    let n = s.len();
    if n > 0 && s[n - 1].1 > u64::MAX - offset {
        return None;
    }
    let mut out: Vec<(u32, u64)> = Vec::new();
    let mut k: usize = 0;
    while k < n
        invariant
            n == s@.len(),
            0 <= k <= n,
            is_monotonic(s@),
            n > 0 ==> s@[n - 1].1 + offset <= u64::MAX,
            out@.len() == k,
            forall|t: int| 0 <= t < k ==> out@[t] == (s@[t].0, (s@[t].1 + offset) as u64),
        decreases n - k,
    {
        let (hash, ts) = s[k];
        assert(s@[k as int].1 <= s@[n - 1].1);
        out.push((hash, ts + offset));
        k += 1;
    }
    assert(out@ =~= rebased(s@, offset));
    assert forall|i: int, j: int| 0 <= i <= j < out@.len() implies out@[i].1 <= out@[j].1 by {
        assert(s@[i].1 <= s@[j].1);
        assert(s@[j].1 <= s@[n - 1].1);
    }
    Some(out)
}

/// Whether two strings hold the same characters.
pub fn str_eq(a: &str, b: &str) -> (r: bool)
    ensures
        r == (a@ == b@),
{
    let x = a.as_bytes();
    let y = b.as_bytes();
    proof {
        encode_utf8_decode_utf8(a@);
        encode_utf8_decode_utf8(b@);
        assert(x@ == encode_utf8(a@));
        assert(y@ == encode_utf8(b@));
    }
    if x.len() != y.len() {
        return false;
    }
    let mut k: usize = 0;
    while k < x.len()
        invariant
            0 <= k <= x.len(),
            x@.len() == y@.len(),
            x@ == encode_utf8(a@),
            y@ == encode_utf8(b@),
            forall|t: int| 0 <= t < k ==> x@[t] == y@[t],
        decreases x.len() - k,
    {
        if x[k] != y[k] {
            return false;
        }
        k += 1;
    }
    assert(x@ =~= y@);
    true
}

/// Frame hashes on disk are used where the analysis is not forced and they
/// carry the checksum that the video has now.
pub open spec fn is_cache_hit(force: bool, cached: Option<FrameHashesView>, md5: Seq<char>) -> bool {
    !force && cached.is_some() && cached.unwrap().md5 == md5
}

/// Whether frame hashes on disk can be used in place of a new analysis.
pub fn cache_hit(force: bool, cached: &Option<FrameHashes>, md5: &str) -> (hit: bool)
    ensures
        hit == is_cache_hit(
            force,
            match *cached {
                Some(c) => Some(c@),
                None => None,
            },
            md5@,
        ),
{
    if force {
        return false;
    }
    match cached {
        Some(c) => str_eq(c.md5(), md5),
        None => false,
    }
}

/// A sample with this timestamp may follow the stream: the stream is empty,
/// or its last sample is no later.
pub open spec fn comes_behind(s: Seq<(u32, u64)>, timestamp: u64) -> bool {
    s.len() == 0 || s.last().1 <= timestamp
}

/// Appends a fingerprint to a stream: the simhash of the raw fingerprint with
/// the time of the start of its window. A fingerprint that lies before the
/// last one of the stream is refused, and the stream stays as it is.
pub fn push_fingerprint(stream: &mut Vec<(u32, u64)>, raw: &[u32], timestamp: u64) -> (r: Result<
    (),
    Error,
>)
    requires
        is_monotonic(old(stream)@),
    ensures
        is_monotonic(final(stream)@),
        comes_behind(old(stream)@, timestamp) ==> r.is_ok(),
        comes_behind(old(stream)@, timestamp) ==> final(stream)@ == old(stream)@.push(
            (simhash32_spec(raw@), timestamp),
        ),
        !comes_behind(old(stream)@, timestamp) ==> r == Err::<(), Error>(Error::DecodeError),
        !comes_behind(old(stream)@, timestamp) ==> final(stream)@ == old(stream)@,
{
    let n = stream.len();
    if n > 0 && stream[n - 1].1 > timestamp {
        return Err(Error::DecodeError);
    }
    let hash = simhash32(raw);
    let ghost before = stream@;
    stream.push((hash, timestamp));
    assert forall|i: int, j: int| 0 <= i <= j < stream@.len() implies stream@[i].1 <= stream@[j].1 by {
        if j < n {
            assert(before[i].1 <= before[j].1);
        } else if i < n {
            assert(before[i].1 <= before[n - 1].1);
        }
    }
    Ok(())
}

impl Analyzer {
    /// An analyzer for the given videos.
    pub fn from_files(videos: Vec<String>, threaded_decoding: bool, force: bool) -> (a: Self)
        ensures
            a.videos == videos,
            a.threaded_decoding == threaded_decoding,
            a.force == force,
            !a.include_endings,
            a.opening_search_percentage.millionths == DEFAULT_OPENING_SEARCH_PERCENTAGE,
            a.ending_search_percentage.millionths == DEFAULT_ENDING_SEARCH_PERCENTAGE,
    {
        let mut a = Analyzer::default().with_threaded_decoding(threaded_decoding).with_force(force);
        a.videos = videos;
        a
    }

    /// The paths of the videos.
    pub fn videos(&self) -> (v: &[String])
        ensures
            v@ == self.videos@,
    {
        self.videos.as_slice()
    }

    /// The same analyzer with another opening fraction.
    pub fn with_opening_search_percentage(self, opening_search_percentage: Fraction) -> (a: Self)
        ensures
            a == (Analyzer { opening_search_percentage, ..self }),
    {
        let mut a = self;
        a.opening_search_percentage = opening_search_percentage;
        a
    }

    /// The same analyzer with another ending fraction.
    pub fn with_ending_search_percentage(self, ending_search_percentage: Fraction) -> (a: Self)
        ensures
            a == (Analyzer { ending_search_percentage, ..self }),
    {
        let mut a = self;
        a.ending_search_percentage = ending_search_percentage;
        a
    }

    /// The same analyzer, analyzing endings too or not.
    pub fn with_include_endings(self, include_endings: bool) -> (a: Self)
        ensures
            a == (Analyzer { include_endings, ..self }),
    {
        let mut a = self;
        a.include_endings = include_endings;
        a
    }

    /// The same analyzer, decoding on several threads or not.
    pub fn with_threaded_decoding(self, threaded_decoding: bool) -> (a: Self)
        ensures
            a == (Analyzer { threaded_decoding, ..self }),
    {
        let mut a = self;
        a.threaded_decoding = threaded_decoding;
        a
    }

    /// The same analyzer, using frame hashes on disk or not.
    pub fn with_force(self, force: bool) -> (a: Self)
        ensures
            a == (Analyzer { force, ..self }),
    {
        let mut a = self;
        a.force = force;
        a
    }

    /// What is wrong with a run of this analyzer, if anything: no videos, a
    /// hash period or hash duration of zero, or a fraction that does not lie
    /// strictly between nothing and the whole, in this order.
    pub open spec fn run_error(&self, hash_period: u64, hash_duration: u64) -> Option<Error> {
        if self.videos@.len() == 0 {
            Some(Error::AnalyzerMissingPaths)
        } else if hash_period == 0 {
            Some(Error::InvalidHashPeriod)
        } else if hash_duration == 0 {
            Some(Error::InvalidHashDuration)
        } else if !self.opening_search_percentage.is_proper()
            || !self.ending_search_percentage.is_proper() {
            Some(Error::InvalidSearchPercentage)
        } else {
            None
        }
    }

    /// Checks the settings of a run.
    pub fn validate(&self, hash_period: u64, hash_duration: u64) -> (r: Result<(), Error>)
        ensures
            r == match self.run_error(hash_period, hash_duration) {
                Some(e) => Err::<(), Error>(e),
                None => Ok::<(), Error>(()),
            },
    {
        if self.videos.len() == 0 {
            return Err(Error::AnalyzerMissingPaths);
        }
        if hash_period == 0 {
            return Err(Error::InvalidHashPeriod);
        }
        if hash_duration == 0 {
            return Err(Error::InvalidHashDuration);
        }
        let o = self.opening_search_percentage.millionths;
        let e = self.ending_search_percentage.millionths;
        if o == 0 || o >= 1_000_000 || e == 0 || e >= 1_000_000 {
            return Err(Error::InvalidSearchPercentage);
        }
        Ok(())
    }

    /// Starts the analysis of every video: one task for each, in the order of
    /// the videos, with nothing known of the video yet. Fails where the
    /// settings of the run are wrong.
    pub fn run(&self, hash_period: u64, hash_duration: u64, persist: bool) -> (r: Result<
        Vec<AnalysisTask>,
        Error,
    >)
        ensures
            match self.run_error(hash_period, hash_duration) {
                Some(e) => r == Err::<Vec<AnalysisTask>, Error>(e),
                None => r.is_ok() && r.unwrap()@.len() == self.videos@.len() && forall|i: int|
                    0 <= i < self.videos@.len() ==> self.is_fresh_task(
                        #[trigger] r.unwrap()@[i],
                        hash_period,
                        hash_duration,
                        persist,
                    ),
            },
    {
        match self.validate(hash_period, hash_duration) {
            Err(e) => {
                return Err(e);
            },
            Ok(()) => {},
        }
        let mut tasks: Vec<AnalysisTask> = Vec::new();
        let mut i: usize = 0;
        while i < self.videos.len()
            invariant
                0 <= i <= self.videos@.len(),
                self.run_error(hash_period, hash_duration).is_none(),
                tasks@.len() == i,
                forall|t: int|
                    0 <= t < i ==> self.is_fresh_task(
                        #[trigger] tasks@[t],
                        hash_period,
                        hash_duration,
                        persist,
                    ),
            decreases self.videos@.len() - i,
        {
            tasks.push(AnalysisTask::new(self, hash_period, hash_duration, persist));
            i += 1;
        }
        Ok(tasks)
    }

    /// `task` is a task of this analyzer with nothing known of its video yet.
    pub open spec fn is_fresh_task(
        &self,
        task: AnalysisTask,
        hash_period: u64,
        hash_duration: u64,
        persist: bool,
    ) -> bool {
        &&& task.wf()
        &&& task.state == AnalysisState::Idle
        &&& task.opening_search_percentage == self.opening_search_percentage
        &&& task.ending_search_percentage == self.ending_search_percentage
        &&& task.include_endings == self.include_endings
        &&& task.force == self.force
        &&& task.persist == persist
        &&& task.hash_period == hash_period
        &&& task.hash_duration == hash_duration
        &&& task.opening@.len() == 0
        &&& task.ending@.len() == 0
        &&& task.result.is_none()
    }
}

} // verus!
