//! Search over every pair of a list of videos, and one result per video.

use vstd::prelude::*;

use super::aggregate::{
    bucket_candidates, flatten, info_candidates, lemma_heaviest_is_best, matches_wf, reported,
    weight, Candidate,
};
use super::comparator::{Comparator, OpeningAndEndingInfo, SearchResult};
use super::codec::decoded;
use super::data::{FrameHashes, FrameHashesView};
use super::search::Bucket;
use crate::error::Error;

verus! {

/// The pairs whose first video is `i`: `(i, i + 1)` up to `(i, n - 1)`.
pub open spec fn row_pairs(n: int, i: int) -> Seq<(usize, usize)> {
    Seq::new((n - 1 - i) as nat, |t: int| (i as usize, (i + 1 + t) as usize))
}

/// The pairs whose first video is one of the first `r` videos.
pub open spec fn pairs_upto(n: int, r: int) -> Seq<(usize, usize)>
    decreases r,
{
    if r <= 0 {
        Seq::empty()
    } else {
        pairs_upto(n, r - 1) + row_pairs(n, r - 1)
    }
}

/// Every pair `(i, j)` of `n` videos with `i < j`, ordered by `i` and then
/// by `j`.
pub open spec fn all_pairs(n: int) -> Seq<(usize, usize)> {
    pairs_upto(n, n)
}

/// Pair `a` stands before pair `b` in the order by first and then by second
/// video.
pub open spec fn pair_before(a: (usize, usize), b: (usize, usize)) -> bool {
    a.0 < b.0 || (a.0 == b.0 && a.1 < b.1)
}

/// The first `r` rows hold `r * (2n - r - 1) / 2` pairs, each pair `(i, j)`
/// has `i < j < n` and `i < r`, and the pairs stand in strictly rising order.
pub proof fn lemma_pairs_upto(n: int, r: int)
    requires
        0 <= r <= n <= usize::MAX,
    ensures
        2 * pairs_upto(n, r).len() == r * (2 * n - r - 1),
        forall|p: int|
            0 <= p < pairs_upto(n, r).len() ==> (#[trigger] pairs_upto(n, r)[p]).0 < pairs_upto(
                n,
                r,
            )[p].1 < n && pairs_upto(n, r)[p].0 < r,
        forall|p: int, q: int|
            0 <= p < q < pairs_upto(n, r).len() ==> pair_before(
                #[trigger] pairs_upto(n, r)[p],
                #[trigger] pairs_upto(n, r)[q],
            ),
    decreases r,
{
    if r > 0 {
        lemma_pairs_upto(n, r - 1);
        let before = pairs_upto(n, r - 1);
        let row = row_pairs(n, r - 1);
        let all = pairs_upto(n, r);
        assert(all == before + row);
        assert(2 * all.len() == r * (2 * n - r - 1)) by (nonlinear_arith)
            requires
                all.len() == before.len() + (n - r),
                2 * before.len() == (r - 1) * (2 * n - (r - 1) - 1),
        ;
        assert forall|p: int| 0 <= p < all.len() implies (#[trigger] all[p]).0 < all[p].1 < n
            && all[p].0 < r by {
            if p < before.len() {
                assert(all[p] == before[p]);
            } else {
                assert(all[p] == row[p - before.len()]);
            }
        }
        assert forall|p: int, q: int| 0 <= p < q < all.len() implies pair_before(
            #[trigger] all[p],
            #[trigger] all[q],
        ) by {
            if q < before.len() {
                assert(all[p] == before[p]);
                assert(all[q] == before[q]);
            } else if p < before.len() {
                assert(all[p] == before[p]);
                assert(all[q] == row[q - before.len()]);
            } else {
                assert(all[p] == row[p - before.len()]);
                assert(all[q] == row[q - before.len()]);
            }
        }
    } else {
        assert(r * (2 * n - r - 1) == 0) by (nonlinear_arith)
            requires
                r == 0,
        ;
    }
}

/// Every pair `(i, j)` with `i < j < n` and `i < r` is among the pairs of the
/// first `r` rows.
pub proof fn lemma_pairs_upto_complete(n: int, r: int, i: int, j: int)
    requires
        0 <= r <= n <= usize::MAX,
        0 <= i < j < n,
        i < r,
    ensures
        pairs_upto(n, r).contains((i as usize, j as usize)),
    decreases r,
{
    let before = pairs_upto(n, r - 1);
    let row = row_pairs(n, r - 1);
    let all = pairs_upto(n, r);
    assert(all == before + row);
    if i < r - 1 {
        lemma_pairs_upto_complete(n, r - 1, i, j);
        let p = choose|p: int| 0 <= p < before.len() && before[p] == (i as usize, j as usize);
        assert(all[p] == before[p]);
    } else {
        let t = j - i - 1;
        assert(row[t] == (i as usize, j as usize));
        assert(all[before.len() + t] == row[t]);
    }
}

/// For `n` videos there are `n * (n - 1) / 2` pairs, every pair `(i, j)` with
/// `i < j < n` is among them, and none stands there twice.
pub proof fn lemma_all_pairs(n: int)
    requires
        0 <= n <= usize::MAX,
    ensures
        2 * all_pairs(n).len() == n * (n - 1),
        forall|i: int, j: int|
            0 <= i < j < n ==> #[trigger] all_pairs(n).contains((i as usize, j as usize)),
        forall|p: int| 0 <= p < all_pairs(n).len() ==> (#[trigger] all_pairs(n)[p]).0 < all_pairs(n)[p].1 < n,
        forall|p: int, q: int|
            0 <= p < q < all_pairs(n).len() ==> #[trigger] all_pairs(n)[p] != #[trigger] all_pairs(
                n,
            )[q],
{
    lemma_pairs_upto(n, n);
    assert(n * (2 * n - n - 1) == n * (n - 1)) by (nonlinear_arith);
    assert forall|i: int, j: int| 0 <= i < j < n implies #[trigger] all_pairs(n).contains(
        (i as usize, j as usize),
    ) by {
        lemma_pairs_upto_complete(n, n, i, j);
    }
    assert forall|p: int, q: int| 0 <= p < q < all_pairs(n).len() implies #[trigger] all_pairs(
        n,
    )[p] != #[trigger] all_pairs(n)[q] by {
        assert(pair_before(all_pairs(n)[p], all_pairs(n)[q]));
    }
}

/// Lists every pair of `n` videos once: the pairs `(i, j)` with `i < j`,
/// ordered by `i` and then by `j`.
pub fn video_pairs(n: usize) -> (pairs: Vec<(usize, usize)>)
    ensures
        pairs@ == all_pairs(n as int),
        2 * pairs@.len() == n * (n - 1),
{
    let mut pairs: Vec<(usize, usize)> = Vec::new();
    let mut i: usize = 0;
    while i < n
        invariant
            0 <= i <= n,
            pairs@ == pairs_upto(n as int, i as int),
        decreases n - i,
    {
        let ghost before = pairs@;
        let mut j: usize = i + 1;
        while j < n
            invariant
                0 <= i < n,
                i + 1 <= j <= n,
                pairs@.len() == before.len() + (j - i - 1),
                forall|t: int| 0 <= t < before.len() ==> pairs@[t] == before[t],
                forall|t: int|
                    before.len() <= t < pairs@.len() ==> #[trigger] pairs@[t] == (
                        i,
                        (i + 1 + t - before.len()) as usize,
                    ),
            decreases n - j,
        {
            pairs.push((i, j));
            j += 1;
        }
        assert(pairs@ =~= before + row_pairs(n as int, i as int));
        i += 1;
    }
    proof {
        lemma_all_pairs(n as int);
    }
    pairs
}

/// What each record of a list of frame hashes holds.
pub open spec fn views_of(frame_hashes: Seq<FrameHashes>) -> Seq<FrameHashesView> {
    Seq::new(frame_hashes.len(), |i: int| frame_hashes[i]@)
}

/// Every record of the list is well formed.
pub open spec fn all_wf(frame_hashes: Seq<FrameHashes>) -> bool {
    forall|i: int| 0 <= i < frame_hashes.len() ==> (#[trigger] frame_hashes[i]).wf()
}

/// What the pairs of a list of videos have found.
pub struct PairSearch {
    /// How many videos there are.
    pub count: usize,
    /// The pairs, in the order in which they were searched.
    pub pairs: Vec<(usize, usize)>,
    /// What each pair found; nothing where it found nothing.
    pub infos: Vec<Option<OpeningAndEndingInfo>>,
    /// The frame hashes that were searched.
    pub hashes: Ghost<Seq<FrameHashesView>>,
}

impl PairSearch {
    /// Every pair of the videos was searched by `comparator`, none for want
    /// of ending data in vain, and `infos` holds what each found.
    pub open spec fn wf(&self, comparator: &Comparator) -> bool {
        &&& self.count == self.hashes@.len()
        &&& self.pairs@ == all_pairs(self.count as int)
        &&& self.infos@.len() == self.pairs@.len()
        &&& !comparator.some_pair_lacks_ending(self.hashes@)
        &&& forall|q: int|
            0 <= q < self.pairs@.len() ==> comparator.holds_pair(
                #[trigger] self.infos@[q],
                self.hashes@[self.pairs@[q].0 as int],
                self.hashes@[self.pairs@[q].1 as int],
            )
    }
}

/// The outcome `r` of a search is what the search comes to: the same error,
/// or the same results.
pub open spec fn is_outcome(
    r: Result<Vec<Option<SearchResult>>, Error>,
    expected: Result<Seq<Option<SearchResult>>, Error>,
) -> bool {
    match r {
        Ok(results) => expected == Ok::<Seq<Option<SearchResult>>, Error>(results@),
        Err(e) => expected == Err::<Seq<Option<SearchResult>>, Error>(e),
    }
}

/// Two searches over the same frame hashes, with the same settings and the
/// same videos skipped, have the same outcome: both fail with the same error,
/// or both give the same result for each video.
pub proof fn lemma_search_is_deterministic(
    comparator: &Comparator,
    hashes: Seq<FrameHashesView>,
    skip: Seq<bool>,
    first: Result<Vec<Option<SearchResult>>, Error>,
    second: Result<Vec<Option<SearchResult>>, Error>,
)
    requires
        is_outcome(first, comparator.search_result(hashes, skip)),
        is_outcome(second, comparator.search_result(hashes, skip)),
    ensures
        first.is_ok() == second.is_ok(),
        first.is_ok() ==> first.unwrap()@ == second.unwrap()@,
        first.is_err() ==> first.unwrap_err() == second.unwrap_err(),
{
}

impl Comparator {
    /// The candidates that one pair contributes to its source, or to its
    /// destination.
    pub open spec fn side_candidates(
        &self,
        src: FrameHashesView,
        dst: FrameHashesView,
        is_source: bool,
    ) -> Seq<Candidate> {
        if is_source {
            bucket_candidates(self.pair_bucket(src, dst, Bucket::SrcOpenings), true, true)
                + bucket_candidates(self.pair_bucket(src, dst, Bucket::SrcEndings), true, false)
        } else {
            bucket_candidates(self.pair_bucket(src, dst, Bucket::DstOpenings), false, true)
                + bucket_candidates(self.pair_bucket(src, dst, Bucket::DstEndings), false, false)
        }
    }

    /// The candidates of video `idx` from the first `p` pairs.
    pub open spec fn video_candidates(&self, hashes: Seq<FrameHashesView>, idx: int, p: int) -> Seq<
        Candidate,
    >
        decreases p,
    {
        if p <= 0 {
            Seq::empty()
        } else {
            let pair = all_pairs(hashes.len() as int)[p - 1];
            self.video_candidates(hashes, idx, p - 1) + if pair.0 == idx {
                self.side_candidates(hashes[pair.0 as int], hashes[pair.1 as int], true)
            } else if pair.1 == idx {
                self.side_candidates(hashes[pair.0 as int], hashes[pair.1 as int], false)
            } else {
                Seq::empty()
            }
        }
    }

    /// The candidates of video `idx` from all pairs.
    pub open spec fn all_video_candidates(&self, hashes: Seq<FrameHashesView>, idx: int) -> Seq<
        Candidate,
    > {
        self.video_candidates(hashes, idx, all_pairs(hashes.len() as int).len() as int)
    }

    /// Some pair of the videos cannot be searched for want of ending data.
    pub open spec fn some_pair_lacks_ending(&self, hashes: Seq<FrameHashesView>) -> bool {
        exists|p: int|
            0 <= p < all_pairs(hashes.len() as int).len() && self.lacks_ending(
                hashes[(#[trigger] all_pairs(hashes.len() as int)[p]).0 as int],
                hashes[all_pairs(hashes.len() as int)[p].1 as int],
            )
    }

    /// The range to report for some video that is not skipped does not fit
    /// into the time line.
    pub open spec fn some_result_does_not_fit(&self, hashes: Seq<FrameHashesView>, skip: Seq<bool>) -> bool {
        exists|idx: int|
            0 <= idx < hashes.len() && !skip[idx] && !self.best_fits(
                #[trigger] self.all_video_candidates(hashes, idx),
            )
    }

    /// The result of a search over all videos, for video `idx`: nothing for a
    /// video that is skipped, else the best match among its candidates.
    pub open spec fn result_for(&self, hashes: Seq<FrameHashesView>, skip: Seq<bool>, idx: int) -> Option<
        SearchResult,
    > {
        if skip[idx] {
            None
        } else {
            Some(self.best_of(self.all_video_candidates(hashes, idx)))
        }
    }

    /// The results of a search over all videos, one for each video.
    pub open spec fn results_of(&self, hashes: Seq<FrameHashesView>, skip: Seq<bool>) -> Seq<
        Option<SearchResult>,
    > {
        Seq::new(hashes.len(), |idx: int| self.result_for(hashes, skip, idx))
    }

    /// What a search over all videos comes to: `FrameHashDataNoEnding` where
    /// a pair cannot be searched, else `InvalidTimePadding` where a range to
    /// report does not fit into the time line, else a result for each video.
    pub open spec fn search_result(&self, hashes: Seq<FrameHashesView>, skip: Seq<bool>) -> Result<
        Seq<Option<SearchResult>>,
        Error,
    > {
        if self.some_pair_lacks_ending(hashes) {
            Err(Error::FrameHashDataNoEnding)
        } else if self.some_result_does_not_fit(hashes, skip) {
            Err(Error::InvalidTimePadding)
        } else {
            Ok(self.results_of(hashes, skip))
        }
    }

    /// Searches every pair of the videos whose frame hashes are given, in the
    /// order of `all_pairs`. Fails with `FrameHashDataNoEnding` if and only if
    /// some pair cannot be searched for want of ending data.
    pub fn search_pairs(&self, frame_hashes: &[FrameHashes]) -> (r: Result<PairSearch, Error>)
        requires
            all_wf(frame_hashes@),
        ensures
            match r {
                Ok(found) => {
                    &&& found.wf(self)
                    &&& found.hashes@ == views_of(frame_hashes@)
                    &&& !self.some_pair_lacks_ending(views_of(frame_hashes@))
                },
                Err(e) => e == Error::FrameHashDataNoEnding && self.some_pair_lacks_ending(
                    views_of(frame_hashes@),
                ),
            },
    {
        let n = frame_hashes.len();
        let ghost hashes = views_of(frame_hashes@);
        let pairs = video_pairs(n);
        proof {
            lemma_all_pairs(n as int);
        }
        let mut infos: Vec<Option<OpeningAndEndingInfo>> = Vec::new();
        let mut p: usize = 0;
        while p < pairs.len()
            invariant
                n == frame_hashes@.len(),
                hashes == views_of(frame_hashes@),
                hashes.len() == n,
                all_wf(frame_hashes@),
                pairs@ == all_pairs(n as int),
                forall|q: int| 0 <= q < pairs@.len() ==> (#[trigger] pairs@[q]).0 < pairs@[q].1 < n,
                0 <= p <= pairs@.len(),
                infos@.len() == p,
                forall|q: int|
                    0 <= q < p ==> !self.lacks_ending(
                        hashes[(#[trigger] pairs@[q]).0 as int],
                        hashes[pairs@[q].1 as int],
                    ),
                forall|q: int|
                    0 <= q < p ==> self.holds_pair(
                        #[trigger] infos@[q],
                        hashes[pairs@[q].0 as int],
                        hashes[pairs@[q].1 as int],
                    ),
            decreases pairs@.len() - p,
        {
            let (i, j) = pairs[p];
            assert(pairs@[p as int].0 < pairs@[p as int].1 < n);
            assert(frame_hashes@[i as int].wf() && frame_hashes@[j as int].wf());
            assert(hashes[i as int] == frame_hashes@[i as int]@);
            assert(hashes[j as int] == frame_hashes@[j as int]@);
            match self.search(i, j, frame_hashes) {
                Err(e) => {
                    assert(self.lacks_ending(
                        hashes[all_pairs(n as int)[p as int].0 as int],
                        hashes[all_pairs(n as int)[p as int].1 as int],
                    ));
                    return Err(e);
                },
                Ok(info) => {
                    if info.is_empty() {
                        infos.push(None);
                    } else {
                        infos.push(Some(info));
                    }
                },
            }
            p += 1;
        }
        Ok(PairSearch { count: n, pairs, infos, hashes: Ghost(hashes) })
    }

    /// Chooses for each video the best opening and ending among what its
    /// pairs have found. `skip` says for each video whether its result is
    /// already known; such a video gets no result. Fails with
    /// `InvalidTimePadding` if and only if a range to report does not fit
    /// into the time line.
    pub fn choose_results(&self, found: &PairSearch, skip: &[bool]) -> (r: Result<
        Vec<Option<SearchResult>>,
        Error,
    >)
        requires
            found.wf(self),
            skip@.len() == found.count,
        ensures
            is_outcome(r, self.search_result(found.hashes@, skip@)),
    {
        let n = found.count;
        let ghost hashes = found.hashes@;
        let mut results: Vec<Option<SearchResult>> = Vec::new();
        let mut idx: usize = 0;
        while idx < n
            invariant
                found.wf(self),
                n == found.count,
                n == skip@.len(),
                hashes == found.hashes@,
                0 <= idx <= n,
                results@.len() == idx,
                forall|v: int|
                    0 <= v < idx ==> #[trigger] results@[v] == self.result_for(hashes, skip@, v),
                forall|v: int|
                    0 <= v < idx && !skip@[v] ==> self.best_fits(
                        #[trigger] self.all_video_candidates(hashes, v),
                    ),
            decreases n - idx,
        {
            if skip[idx] {
                results.push(None);
            } else {
                let matches = self.collect_matches(&found.pairs, &found.infos, idx, Ghost(hashes));
                match self.try_find_best_match(matches.as_slice()) {
                    Ok(result) => {
                        results.push(Some(result));
                    },
                    Err(e) => {
                        assert(!self.best_fits(self.all_video_candidates(hashes, idx as int)));
                        return Err(e);
                    },
                }
            }
            idx += 1;
        }
        assert(results@ =~= self.results_of(hashes, skip@));
        Ok(results)
    }

    /// Searches every pair of the videos whose frame hashes are given, and
    /// chooses for each video the best opening and ending among what its pairs
    /// have found. `skip` says for each video whether its result is already
    /// known; such a video still takes part in the pairs, and gets no result.
    ///
    /// The search fails with `FrameHashDataNoEnding` where a pair cannot be
    /// searched, else with `InvalidTimePadding` where a range to report does
    /// not fit into the time line.
    pub fn run_with_frame_hashes(&self, frame_hashes: &[FrameHashes], skip: &[bool]) -> (r: Result<
        Vec<Option<SearchResult>>,
        Error,
    >)
        requires
            frame_hashes@.len() == self.videos@.len(),
            skip@.len() == frame_hashes@.len(),
            all_wf(frame_hashes@),
        ensures
            is_outcome(r, self.search_result(views_of(frame_hashes@), skip@)),
    {
        match self.search_pairs(frame_hashes) {
            Ok(found) => self.choose_results(&found, skip),
            Err(e) => Err(e),
        }
    }

    /// `info` stands for what the pair found: the pair's four buckets, or
    /// nothing where all four are empty.
    pub open spec fn holds_pair(
        &self,
        info: Option<OpeningAndEndingInfo>,
        src: FrameHashesView,
        dst: FrameHashesView,
    ) -> bool {
        match info {
            Some(i) => self.is_pair_info(&i, src, dst),
            None => {
                &&& self.pair_bucket(src, dst, Bucket::SrcOpenings).len() == 0
                &&& self.pair_bucket(src, dst, Bucket::DstOpenings).len() == 0
                &&& self.pair_bucket(src, dst, Bucket::SrcEndings).len() == 0
                &&& self.pair_bucket(src, dst, Bucket::DstEndings).len() == 0
            },
        }
    }

    /// Gathers what the pairs of video `idx` have found, each with the side
    /// that the video had in the pair.
    fn collect_matches<'a>(
        &self,
        pairs: &Vec<(usize, usize)>,
        infos: &'a Vec<Option<OpeningAndEndingInfo>>,
        idx: usize,
        Ghost(hashes): Ghost<Seq<FrameHashesView>>,
    ) -> (matches: Vec<(&'a OpeningAndEndingInfo, bool)>)
        requires
            pairs@ == all_pairs(hashes.len() as int),
            infos@.len() == pairs@.len(),
            forall|q: int|
                0 <= q < pairs@.len() ==> self.holds_pair(
                    #[trigger] infos@[q],
                    hashes[pairs@[q].0 as int],
                    hashes[pairs@[q].1 as int],
                ),
        ensures
            matches_wf(matches@),
            flatten(matches@) == self.all_video_candidates(hashes, idx as int),
    {
        let mut matches: Vec<(&OpeningAndEndingInfo, bool)> = Vec::new();
        let mut p: usize = 0;
        while p < pairs.len()
            invariant
                pairs@ == all_pairs(hashes.len() as int),
                infos@.len() == pairs@.len(),
                forall|q: int|
                    0 <= q < pairs@.len() ==> self.holds_pair(
                        #[trigger] infos@[q],
                        hashes[pairs@[q].0 as int],
                        hashes[pairs@[q].1 as int],
                    ),
                0 <= p <= pairs@.len(),
                matches_wf(matches@),
                flatten(matches@) == self.video_candidates(hashes, idx as int, p as int),
            decreases pairs@.len() - p,
        {
            let (i, j) = pairs[p];
            let ghost src = hashes[i as int];
            let ghost dst = hashes[j as int];
            let ghost before = matches@;
            assert(self.holds_pair(infos@[p as int], src, dst));
            match &infos[p] {
                Some(info) => {
                    if i == idx {
                        matches.push((info, true));
                        proof {
                            assert(matches@.drop_last() == before);
                            assert(info_candidates(info, true) == self.side_candidates(src, dst, true));
                        }
                    } else if j == idx {
                        matches.push((info, false));
                        proof {
                            assert(matches@.drop_last() == before);
                            assert(info_candidates(info, false) == self.side_candidates(
                                src,
                                dst,
                                false,
                            ));
                        }
                    }
                },
                None => {
                    assert(self.side_candidates(src, dst, true) =~= Seq::<Candidate>::empty());
                    assert(self.side_candidates(src, dst, false) =~= Seq::<Candidate>::empty());
                },
            }
            p += 1;
        }
        matches
    }
}

/// Where a search succeeds, a video that is not skipped and has an opening
/// candidate that outweighs all its other opening candidates gets that
/// candidate as its opening: its range, moved in by the time padding at both
/// ends and by its hash window at the end.
pub proof fn lemma_outweighing_opening_is_reported(
    comparator: &Comparator,
    hashes: Seq<FrameHashesView>,
    skip: Seq<bool>,
    video: int,
    i: int,
)
    requires
        0 <= video < hashes.len(),
        !skip[video],
        comparator.search_result(hashes, skip).is_ok(),
        0 <= i < comparator.all_video_candidates(hashes, video).len(),
        comparator.all_video_candidates(hashes, video)[i].is_opening,
        forall|j: int|
            0 <= j < comparator.all_video_candidates(hashes, video).len() && j != i
                && comparator.all_video_candidates(hashes, video)[j].is_opening ==> weight(
                comparator.all_video_candidates(hashes, video),
                j,
                comparator.hash_match_threshold,
            ) < weight(
                comparator.all_video_candidates(hashes, video),
                i,
                comparator.hash_match_threshold,
            ),
    ensures
        comparator.search_result(hashes, skip).unwrap()[video].is_some(),
        comparator.search_result(hashes, skip).unwrap()[video].unwrap().opening == Some(
            reported(comparator.all_video_candidates(hashes, video)[i], comparator.time_padding),
        ),
{
    let c = comparator.all_video_candidates(hashes, video);
    lemma_heaviest_is_best(c, i, true, comparator.hash_match_threshold);
}

/// The first thing that is wrong with the first `k` files of frame hashes: a
/// file that is not there, or one that cannot be read.
pub open spec fn load_error(files: Seq<Option<Vec<u8>>>, k: int) -> Option<Error>
    decreases k,
{
    if k <= 0 {
        None
    } else {
        match load_error(files, k - 1) {
            Some(e) => Some(e),
            None => match files[k - 1] {
                None => Some(Error::FrameHashDataNotFound),
                Some(bytes) => match decoded(bytes@) {
                    Err(e) => Some(e),
                    Ok(_) => None,
                },
            },
        }
    }
}

/// The file is there and holds the frame hashes `f`.
pub open spec fn holds_file(file: Option<Vec<u8>>, f: FrameHashes) -> bool {
    f.wf() && file.is_some() && decoded(file.unwrap()@) == Ok::<FrameHashesView, Error>(f@)
}

/// The frame hashes that the files hold.
pub open spec fn loaded(files: Seq<Option<Vec<u8>>>) -> Seq<FrameHashesView> {
    Seq::new(files.len(), |i: int| decoded(files[i].unwrap()@).unwrap())
}

impl Comparator {
    /// What a run over the files of frame hashes comes to: the first thing
    /// that is wrong with a file, else what the search over their frame
    /// hashes comes to.
    pub open spec fn run_result(&self, files: Seq<Option<Vec<u8>>>, skip: Seq<bool>) -> Result<
        Seq<Option<SearchResult>>,
        Error,
    > {
        match load_error(files, files.len() as int) {
            Some(e) => Err(e),
            None => self.search_result(loaded(files), skip),
        }
    }

    /// Runs the comparator on videos that were analyzed before. `files` holds
    /// for each video the contents of the file of frame hashes that lies next
    /// to it, or nothing where there is none. `skip` says for each video
    /// whether its result is already known.
    pub fn run(&self, files: &[Option<Vec<u8>>], skip: &[bool]) -> (r: Result<
        Vec<Option<SearchResult>>,
        Error,
    >)
        requires
            files@.len() == self.videos@.len(),
            skip@.len() == files@.len(),
        ensures
            is_outcome(r, self.run_result(files@, skip@)),
    {
        let mut frame_hashes: Vec<FrameHashes> = Vec::new();
        let mut i: usize = 0;
        while i < files.len()
            invariant
                0 <= i <= files@.len(),
                load_error(files@, i as int).is_none(),
                frame_hashes@.len() == i,
                forall|t: int| 0 <= t < i ==> holds_file(files@[t], #[trigger] frame_hashes@[t]),
            decreases files@.len() - i,
        {
            let loaded = match &files[i] {
                Some(bytes) => FrameHashes::from_video(Some(bytes.as_slice())),
                None => FrameHashes::from_video(None),
            };
            match loaded {
                Ok(f) => {
                    let ghost before = frame_hashes@;
                    frame_hashes.push(f);
                    assert forall|t: int| 0 <= t < i + 1 implies holds_file(
                        files@[t],
                        #[trigger] frame_hashes@[t],
                    ) by {
                        if t < i {
                            assert(frame_hashes@[t] == before[t]);
                        }
                    }
                },
                Err(e) => {
                    proof {
                        lemma_load_error_stays(files@, i + 1, files@.len() as int);
                    }
                    return Err(e);
                },
            }
            i += 1;
        }
        assert(views_of(frame_hashes@) =~= loaded(files@));
        self.run_with_frame_hashes(frame_hashes.as_slice(), skip)
    }
}

/// The first thing that is wrong with some files is the first thing that is
/// wrong with more of them.
pub proof fn lemma_load_error_stays(files: Seq<Option<Vec<u8>>>, k: int, n: int)
    requires
        0 <= k <= n,
        load_error(files, k).is_some(),
    ensures
        load_error(files, n) == load_error(files, k),
    decreases n - k,
{
    if k < n {
        lemma_load_error_stays(files, k, n - 1);
    }
}

} // verus!
