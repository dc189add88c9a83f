//! Choice of the best opening and ending of one video.
//!
//! Every pair of videos that a video takes part in contributes the runs that
//! were found on the video's own side. A run counts for more the longer it is
//! and the more of the other runs carry a similar summary hash.

use vstd::prelude::*;

use super::comparator::{entries_wf, Comparator, MatchEntry, OpeningAndEndingInfo, SearchResult};
use crate::bits::{hamming, hamming_distance};
use crate::error::Error;

verus! {

/// One detected run as seen from one of its two videos.
#[derive(Clone, Copy, Debug, PartialEq, Eq)]
pub struct Candidate {
    /// Timestamps of the first and last sample of the run.
    pub range: (u64, u64),
    /// Length of audio behind each hash of the video.
    pub hash_window: u64,
    /// Simhash of the hashes in the run.
    pub summary_hash: u32,
    /// Whether the run was found among the openings.
    pub is_opening: bool,
}

/// The side of `e` that belongs to the video: the source side when
/// `is_source`, else the destination side.
pub open spec fn own_side(e: MatchEntry, is_source: bool, is_opening: bool) -> Candidate {
    if is_source {
        Candidate {
            range: e.src_range,
            hash_window: e.src_hash_window,
            summary_hash: e.src_summary_hash,
            is_opening,
        }
    } else {
        Candidate {
            range: e.dst_range,
            hash_window: e.dst_hash_window,
            summary_hash: e.dst_summary_hash,
            is_opening,
        }
    }
}

/// The candidates of one bucket, in the bucket's order.
pub open spec fn bucket_candidates(
    entries: Seq<MatchEntry>,
    is_source: bool,
    is_opening: bool,
) -> Seq<Candidate> {
    Seq::new(entries.len(), |i: int| own_side(entries[i], is_source, is_opening))
}

/// The candidates that one pair contributes: the openings of the video's
/// side, then its endings.
pub open spec fn info_candidates(info: &OpeningAndEndingInfo, is_source: bool) -> Seq<Candidate> {
    if is_source {
        bucket_candidates(info.src_openings@, true, true) + bucket_candidates(
            info.src_endings@,
            true,
            false,
        )
    } else {
        bucket_candidates(info.dst_openings@, false, true) + bucket_candidates(
            info.dst_endings@,
            false,
            false,
        )
    }
}

/// All candidates of a video, pair after pair.
pub open spec fn flatten(matches: Seq<(&OpeningAndEndingInfo, bool)>) -> Seq<Candidate>
    decreases matches.len(),
{
    if matches.len() == 0 {
        Seq::empty()
    } else {
        flatten(matches.drop_last()) + info_candidates(matches.last().0, matches.last().1)
    }
}

/// Every pair in `matches` holds well-formed entries only.
pub open spec fn matches_wf(matches: Seq<(&OpeningAndEndingInfo, bool)>) -> bool {
    forall|i: int| 0 <= i < matches.len() ==> (#[trigger] matches[i]).0.wf()
}

/// Every candidate's range runs forward in time.
pub open spec fn candidates_wf(c: Seq<Candidate>) -> bool {
    forall|i: int| 0 <= i < c.len() ==> (#[trigger] c[i]).range.0 <= c[i].range.1
}

/// Two summary hashes are neighbours when they differ in fewer bits than one
/// and a half times the hash match threshold.
pub open spec fn are_neighbors(a: u32, b: u32, threshold: u32) -> bool {
    hamming(a, b) < threshold + threshold / 2
}

/// How many of the first `k` candidates are neighbours of candidate `i`.
pub open spec fn neighbors_among(c: Seq<Candidate>, i: int, k: int, threshold: u32) -> nat
    decreases k,
{
    if k <= 0 {
        0
    } else {
        neighbors_among(c, i, k - 1, threshold) + if are_neighbors(
            c[i].summary_hash,
            c[k - 1].summary_hash,
            threshold,
        ) {
            1nat
        } else {
            0nat
        }
    }
}

/// How many candidates, itself included, are neighbours of candidate `i`.
pub open spec fn neighbor_count(c: Seq<Candidate>, i: int, threshold: u32) -> nat {
    neighbors_among(c, i, c.len() as int, threshold)
}

/// The weight of candidate `i`: three parts per neighbour and seven parts per
/// second of duration, counted in nanoseconds so that it is a whole number.
/// Ordering by `-(0.3 * neighbours + 0.7 * seconds)` ascending is ordering by
/// this weight descending.
pub open spec fn weight(c: Seq<Candidate>, i: int, threshold: u32) -> int {
    3_000_000_000 * neighbor_count(c, i, threshold) + 7 * (c[i].range.1 - c[i].range.0)
}

/// The heaviest of the first `k` candidates that are openings (`kind`) or
/// endings (`!kind`); the earliest one among equals.
pub open spec fn best_among(c: Seq<Candidate>, k: int, kind: bool, threshold: u32) -> Option<int>
    decreases k,
{
    if k <= 0 {
        None
    } else {
        let before = best_among(c, k - 1, kind, threshold);
        if c[k - 1].is_opening != kind {
            before
        } else {
            match before {
                None => Some(k - 1),
                Some(p) => if weight(c, k - 1, threshold) > weight(c, p, threshold) {
                    Some(k - 1)
                } else {
                    Some(p)
                },
            }
        }
    }
}

/// The heaviest candidate of the given kind, if there is one of that kind.
pub open spec fn best(c: Seq<Candidate>, kind: bool, threshold: u32) -> Option<int> {
    best_among(c, c.len() as int, kind, threshold)
}

/// The padded range fits between zero and the largest time.
pub open spec fn can_report(c: Candidate, padding: u64) -> bool {
    &&& c.range.0 + padding <= u64::MAX
    &&& padding + c.hash_window <= c.range.1
}

/// The range that is reported for a candidate: its start moved forward by the
/// padding, its end moved back by the padding and by one hash window, so that
/// it names the end of the audio and not the start of the last window.
pub open spec fn reported(c: Candidate, padding: u64) -> (u64, u64) {
    ((c.range.0 + padding) as u64, (c.range.1 - padding - c.hash_window) as u64)
}

/// The reported range of the best candidate of a kind.
pub open spec fn selection(c: Seq<Candidate>, kind: bool, threshold: u32, padding: u64) -> Option<
    (u64, u64),
> {
    match best(c, kind, threshold) {
        Some(i) => Some(reported(c[i], padding)),
        None => None,
    }
}

/// The best candidate of a kind, if any, can be reported.
pub open spec fn selection_fits(c: Seq<Candidate>, kind: bool, threshold: u32, padding: u64) -> bool {
    match best(c, kind, threshold) {
        Some(i) => can_report(c[i], padding),
        None => true,
    }
}

/// The candidate that `best` names is of the kind asked for, no candidate of
/// that kind is heavier, and none of equal weight stands before it. Where
/// `best` names none, no candidate is of that kind.
pub proof fn lemma_best_is_heaviest(c: Seq<Candidate>, kind: bool, threshold: u32)
    ensures
        match best(c, kind, threshold) {
            Some(i) => {
                &&& 0 <= i < c.len()
                &&& c[i].is_opening == kind
                &&& forall|j: int|
                    0 <= j < c.len() && c[j].is_opening == kind ==> weight(c, j, threshold)
                        <= weight(c, i, threshold)
                &&& forall|j: int|
                    0 <= j < i && c[j].is_opening == kind ==> weight(c, j, threshold) < weight(
                        c,
                        i,
                        threshold,
                    )
            },
            None => forall|j: int| 0 <= j < c.len() ==> c[j].is_opening != kind,
        },
{
    lemma_best_among_heaviest(c, c.len() as int, kind, threshold);
}

/// A candidate that outweighs every other candidate of its kind, or weighs as
/// much as those behind it and more than those before it, is the one that
/// `best` names.
pub proof fn lemma_heaviest_is_best(c: Seq<Candidate>, i: int, kind: bool, threshold: u32)
    requires
        0 <= i < c.len(),
        c[i].is_opening == kind,
        forall|j: int|
            0 <= j < i && c[j].is_opening == kind ==> weight(c, j, threshold) < weight(
                c,
                i,
                threshold,
            ),
        forall|j: int|
            i < j < c.len() && c[j].is_opening == kind ==> weight(c, j, threshold) <= weight(
                c,
                i,
                threshold,
            ),
    ensures
        best(c, kind, threshold) == Some(i),
{
    lemma_best_is_heaviest(c, kind, threshold);
}

proof fn lemma_best_among_heaviest(c: Seq<Candidate>, k: int, kind: bool, threshold: u32)
    requires
        0 <= k <= c.len(),
    ensures
        match best_among(c, k, kind, threshold) {
            Some(i) => {
                &&& 0 <= i < k
                &&& c[i].is_opening == kind
                &&& forall|j: int|
                    0 <= j < k && c[j].is_opening == kind ==> weight(c, j, threshold) <= weight(
                        c,
                        i,
                        threshold,
                    )
                &&& forall|j: int|
                    0 <= j < i && c[j].is_opening == kind ==> weight(c, j, threshold) < weight(
                        c,
                        i,
                        threshold,
                    )
            },
            None => forall|j: int| 0 <= j < k ==> c[j].is_opening != kind,
        },
    decreases k,
{
    if k > 0 {
        lemma_best_among_heaviest(c, k - 1, kind, threshold);
    }
}

/// A neighbour count never exceeds the number of candidates looked at.
pub proof fn lemma_neighbors_among_bound(c: Seq<Candidate>, i: int, k: int, threshold: u32)
    requires
        0 <= k,
    ensures
        neighbors_among(c, i, k, threshold) <= k,
    decreases k,
{
    if k > 0 {
        lemma_neighbors_among_bound(c, i, k - 1, threshold);
    }
}

proof fn lemma_flatten_push(
    matches: Seq<(&OpeningAndEndingInfo, bool)>,
    k: int,
)
    requires
        0 <= k < matches.len(),
    ensures
        flatten(matches.take(k + 1)) == flatten(matches.take(k)) + info_candidates(
            matches[k].0,
            matches[k].1,
        ),
{
    let t = matches.take(k + 1);
    assert(t.drop_last() == matches.take(k));
    assert(t.last() == matches[k]);
}

/// Appends to `out` the candidates of one bucket.
fn push_bucket(out: &mut Vec<Candidate>, entries: &Vec<MatchEntry>, is_source: bool, is_opening: bool)
    requires
        candidates_wf(old(out)@),
        entries_wf(entries@),
    ensures
        final(out)@ == old(out)@ + bucket_candidates(entries@, is_source, is_opening),
        candidates_wf(final(out)@),
{
    let ghost before = out@;
    let mut t: usize = 0;
    while t < entries.len()
        invariant
            0 <= t <= entries.len(),
            entries_wf(entries@),
            candidates_wf(out@),
            out@ == before + bucket_candidates(entries@.take(t as int), is_source, is_opening),
        decreases entries.len() - t,
    {
        let e = entries[t];
        assert(entries@[t as int].wf());
        let c = if is_source {
            Candidate {
                range: e.src_range,
                hash_window: e.src_hash_window,
                summary_hash: e.src_summary_hash,
                is_opening,
            }
        } else {
            Candidate {
                range: e.dst_range,
                hash_window: e.dst_hash_window,
                summary_hash: e.dst_summary_hash,
                is_opening,
            }
        };
        out.push(c);
        proof {
            let prev = bucket_candidates(entries@.take(t as int), is_source, is_opening);
            let next = bucket_candidates(entries@.take(t + 1), is_source, is_opening);
            assert(next == prev.push(c));
            assert(out@ == before + next);
        }
        t += 1;
    }
    assert(entries@.take(t as int) == entries@);
}

/// The candidates of a video, pair after pair: for a pair in which the video
/// was the source, the source openings and then the source endings; for the
/// others the destination's.
pub fn candidates(matches: &[(&OpeningAndEndingInfo, bool)]) -> (out: Vec<Candidate>)
    requires
        matches_wf(matches@),
    ensures
        out@ == flatten(matches@),
        candidates_wf(out@),
{
    let mut out: Vec<Candidate> = Vec::new();
    let mut k: usize = 0;
    while k < matches.len()
        invariant
            0 <= k <= matches.len(),
            matches_wf(matches@),
            candidates_wf(out@),
            out@ == flatten(matches@.take(k as int)),
        decreases matches.len() - k,
    {
        let (info, is_source) = matches[k];
        assert(matches@[k as int].0.wf());
        if is_source {
            push_bucket(&mut out, &info.src_openings, true, true);
            push_bucket(&mut out, &info.src_endings, true, false);
        } else {
            push_bucket(&mut out, &info.dst_openings, false, true);
            push_bucket(&mut out, &info.dst_endings, false, false);
        }
        proof {
            lemma_flatten_push(matches@, k as int);
            assert(out@ == flatten(matches@.take(k as int)) + info_candidates(info, is_source));
        }
        k += 1;
    }
    assert(matches@.take(k as int) == matches@);
    out
}

/// Counts the candidates that are neighbours of candidate `i`.
pub fn count_neighbors(c: &Vec<Candidate>, i: usize, threshold: u32) -> (n: usize)
    requires
        i < c.len(),
    ensures
        n == neighbor_count(c@, i as int, threshold),
{
    let limit: u64 = threshold as u64 + threshold as u64 / 2;
    let mut n: usize = 0;
    let mut j: usize = 0;
    while j < c.len()
        invariant
            0 <= j <= c.len(),
            i < c.len(),
            limit == threshold + threshold / 2,
            n == neighbors_among(c@, i as int, j as int, threshold),
            n <= j,
        decreases c.len() - j,
    {
        let d = hamming_distance(c[i].summary_hash, c[j].summary_hash);
        if (d as u64) < limit {
            n += 1;
        }
        j += 1;
    }
    n
}

/// The weight of candidate `i`.
pub fn candidate_weight(c: &Vec<Candidate>, i: usize, threshold: u32) -> (w: u128)
    requires
        i < c.len(),
        candidates_wf(c@),
    ensures
        w == weight(c@, i as int, threshold),
{
    let n = count_neighbors(c, i, threshold);
    proof {
        lemma_neighbors_among_bound(c@, i as int, c@.len() as int, threshold);
    }
    let duration = c[i].range.1 - c[i].range.0;
    3_000_000_000u128 * (n as u128) + 7u128 * (duration as u128)
}

/// Finds the heaviest candidate of a kind, the earliest among equals.
pub fn best_candidate(c: &Vec<Candidate>, kind: bool, threshold: u32) -> (r: Option<usize>)
    requires
        candidates_wf(c@),
    ensures
        match r {
            Some(i) => i < c.len() && best(c@, kind, threshold) == Some(i as int),
            None => best(c@, kind, threshold).is_none(),
        },
{
    let mut r: Option<usize> = None;
    let mut heaviest: u128 = 0;
    let mut k: usize = 0;
    while k < c.len()
        invariant
            0 <= k <= c.len(),
            candidates_wf(c@),
            match r {
                Some(i) => best_among(c@, k as int, kind, threshold) == Some(i as int) && i < k
                    && heaviest == weight(c@, i as int, threshold),
                None => best_among(c@, k as int, kind, threshold).is_none(),
            },
        decreases c.len() - k,
    {
        if c[k].is_opening == kind {
            let w = candidate_weight(c, k, threshold);
            match r {
                None => {
                    r = Some(k);
                    heaviest = w;
                },
                Some(_) => {
                    if w > heaviest {
                        r = Some(k);
                        heaviest = w;
                    }
                },
            }
        }
        k += 1;
    }
    r
}

impl Comparator {
    /// The result for a video whose candidates are `c`: the reported range of
    /// the best opening, and of the best ending where endings are asked for.
    pub open spec fn best_of(&self, c: Seq<Candidate>) -> SearchResult {
        SearchResult {
            opening: selection(c, true, self.hash_match_threshold, self.time_padding),
            ending: if self.include_endings {
                selection(c, false, self.hash_match_threshold, self.time_padding)
            } else {
                None
            },
        }
    }

    /// Whether the ranges that `best_of` reports fit into the time line.
    pub open spec fn best_fits(&self, c: Seq<Candidate>) -> bool {
        &&& selection_fits(c, true, self.hash_match_threshold, self.time_padding)
        &&& self.include_endings ==> selection_fits(
            c,
            false,
            self.hash_match_threshold,
            self.time_padding,
        )
    }

    /// The result for a video whose pairs are `matches`.
    pub open spec fn best_match(&self, matches: Seq<(&OpeningAndEndingInfo, bool)>) -> SearchResult {
        self.best_of(flatten(matches))
    }

    /// Whether the ranges that `best_match` reports fit into the time line.
    pub open spec fn best_match_fits(&self, matches: Seq<(&OpeningAndEndingInfo, bool)>) -> bool {
        self.best_fits(flatten(matches))
    }

    /// Finds the best opening and ending among everything the pairs of one
    /// video have found. Each element of `matches` is the outcome of one pair
    /// and says whether the video was the source of that pair.
    pub fn find_best_match(&self, matches: &[(&OpeningAndEndingInfo, bool)]) -> (r: SearchResult)
        requires
            matches_wf(matches@),
            self.best_match_fits(matches@),
        ensures
            r == self.best_match(matches@),
    {
        let c = candidates(matches);
        let mut r = SearchResult { opening: None, ending: None };
        if let Some(i) = best_candidate(&c, true, self.hash_match_threshold) {
            let o = c[i];
            r.opening = Some((o.range.0 + self.time_padding, o.range.1 - self.time_padding - o.hash_window));
        }
        if self.include_endings {
            if let Some(i) = best_candidate(&c, false, self.hash_match_threshold) {
                let e = c[i];
                r.ending = Some(
                    (e.range.0 + self.time_padding, e.range.1 - self.time_padding - e.hash_window),
                );
            }
        }
        r
    }

    /// As `find_best_match`, for any time padding: where a range to report
    /// does not fit into the time line, the answer is `InvalidTimePadding`.
    pub fn try_find_best_match(&self, matches: &[(&OpeningAndEndingInfo, bool)]) -> (r: Result<
        SearchResult,
        Error,
    >)
        requires
            matches_wf(matches@),
        ensures
            self.best_match_fits(matches@) ==> r == Ok::<SearchResult, Error>(
                self.best_match(matches@),
            ),
            !self.best_match_fits(matches@) ==> r == Err::<SearchResult, Error>(
                Error::InvalidTimePadding,
            ),
    {
        let c = candidates(matches);
        let opening_fits = match best_candidate(&c, true, self.hash_match_threshold) {
            Some(i) => fits(&c[i], self.time_padding),
            None => true,
        };
        let ending_fits = if self.include_endings {
            match best_candidate(&c, false, self.hash_match_threshold) {
                Some(i) => fits(&c[i], self.time_padding),
                None => true,
            }
        } else {
            true
        };
        if opening_fits && ending_fits {
            Ok(self.find_best_match(matches))
        } else {
            Err(Error::InvalidTimePadding)
        }
    }
}

/// Whether the padded range of `c` fits into the time line.
pub fn fits(c: &Candidate, padding: u64) -> (b: bool)
    ensures
        b == can_report(*c, padding),
{
    c.range.0 <= u64::MAX - padding && padding <= u64::MAX - c.hash_window && padding
        + c.hash_window <= c.range.1
}

} // verus!
