//! Search for the runs of matching hashes that two fingerprint streams share.
//!
//! Position `i` of the source matches position `j` of the destination when the
//! two hashes differ in no more bits than the hash match threshold. A run is a
//! diagonal of matches that can be extended at neither end.

use vstd::prelude::*;
use vstd::slice::slice_subrange;

use super::comparator::{entries_wf, Comparator, MatchEntry};
use super::simhash::{simhash32, simhash32_spec};
use crate::bits::{hamming, hamming_distance};

verus! {

/// What the matcher is told about one of the two streams.
#[derive(Clone, Copy, Debug, PartialEq, Eq)]
pub struct StreamInfo {
    /// A run that ends before this time lies in the opening region.
    pub max_opening_time: u64,
    /// A run that starts after this time lies in the ending region.
    pub min_ending_time: u64,
    /// Length of audio behind each hash of the stream.
    pub hash_window: u64,
}

/// The timestamps of `s` never decrease.
pub open spec fn is_monotonic(s: Seq<(u32, u64)>) -> bool {
    forall|i: int, j: int| 0 <= i <= j < s.len() ==> s[i].1 <= s[j].1
}

/// The hashes of a stream, without their timestamps.
pub open spec fn hashes_of(s: Seq<(u32, u64)>) -> Seq<u32> {
    Seq::new(s.len(), |k: int| s[k].0)
}

/// Two hashes match when they differ in at most `threshold` bits.
pub open spec fn hashes_match(a: u32, b: u32, threshold: u32) -> bool {
    hamming(a, b) <= threshold
}

/// Length of the diagonal of matches that ends at `(i, j)`: zero where the two
/// positions do not match or lie outside the streams.
pub open spec fn run_length(
    src: Seq<(u32, u64)>,
    dst: Seq<(u32, u64)>,
    threshold: u32,
    i: int,
    j: int,
) -> nat
    decreases i + 1,
{
    if 0 <= i < src.len() && 0 <= j < dst.len() && hashes_match(src[i].0, dst[j].0, threshold) {
        1 + run_length(src, dst, threshold, i - 1, j - 1)
    } else {
        0
    }
}

/// A run ends at `(i, j)`: the positions match and the next positions on the
/// diagonal do not, or lie outside the streams.
pub open spec fn ends_run(
    src: Seq<(u32, u64)>,
    dst: Seq<(u32, u64)>,
    threshold: u32,
    i: int,
    j: int,
) -> bool {
    run_length(src, dst, threshold, i, j) > 0 && run_length(src, dst, threshold, i + 1, j + 1) == 0
}

/// The entry for the run that ends at `(i, j)`.
pub open spec fn entry_at(
    src: Seq<(u32, u64)>,
    dst: Seq<(u32, u64)>,
    threshold: u32,
    src_info: StreamInfo,
    dst_info: StreamInfo,
    i: int,
    j: int,
) -> MatchEntry {
    let len = run_length(src, dst, threshold, i, j);
    let a = i - len + 1;
    let b = j - len + 1;
    MatchEntry {
        run_length: len as usize,
        src_range: (src[a].1, src[i].1),
        dst_range: (dst[b].1, dst[j].1),
        src_summary_hash: simhash32_spec(hashes_of(src).subrange(a, i + 1)),
        dst_summary_hash: simhash32_spec(hashes_of(dst).subrange(b, j + 1)),
        src_is_opening: src[i].1 < src_info.max_opening_time,
        src_is_ending: src[a].1 > src_info.min_ending_time,
        dst_is_opening: dst[j].1 < dst_info.max_opening_time,
        dst_is_ending: dst[b].1 > dst_info.min_ending_time,
        src_hash_window: src_info.hash_window,
        dst_hash_window: dst_info.hash_window,
    }
}

/// One side of a run is valid as an opening that lasts long enough, or as an
/// ending that lasts long enough.
pub open spec fn side_valid(
    is_opening: bool,
    is_ending: bool,
    range: (u64, u64),
    min_opening: u64,
    min_ending: u64,
) -> bool {
    (is_opening && range.1 - range.0 >= min_opening) || (is_ending && range.1 - range.0
        >= min_ending)
}

/// A run is accepted when each side is valid by itself and the two sides are
/// of one kind: both openings or both endings.
pub open spec fn accepted(e: MatchEntry, min_opening: u64, min_ending: u64) -> bool {
    &&& side_valid(e.src_is_opening, e.src_is_ending, e.src_range, min_opening, min_ending)
    &&& side_valid(e.dst_is_opening, e.dst_is_ending, e.dst_range, min_opening, min_ending)
    &&& ((e.src_is_opening && e.dst_is_opening) || (e.src_is_ending && e.dst_is_ending))
}

/// A run is no longer than the distance of its end from either edge.
pub proof fn lemma_run_length_bound(
    src: Seq<(u32, u64)>,
    dst: Seq<(u32, u64)>,
    threshold: u32,
    i: int,
    j: int,
)
    ensures
        i < 0 || j < 0 ==> run_length(src, dst, threshold, i, j) == 0,
        i >= 0 && j >= 0 ==> run_length(src, dst, threshold, i, j) <= i + 1,
        i >= 0 && j >= 0 ==> run_length(src, dst, threshold, i, j) <= j + 1,
    decreases i + 1,
{
    if 0 <= i < src.len() && 0 <= j < dst.len() && hashes_match(src[i].0, dst[j].0, threshold) {
        lemma_run_length_bound(src, dst, threshold, i - 1, j - 1);
    }
}

/// Every position of the run that ends at `(i, j)` is a match, and the run
/// cannot be extended at its start: the positions before it do not match, or
/// lie outside the streams.
pub proof fn lemma_run_is_maximal(
    src: Seq<(u32, u64)>,
    dst: Seq<(u32, u64)>,
    threshold: u32,
    i: int,
    j: int,
)
    requires
        0 <= i < src.len(),
        0 <= j < dst.len(),
    ensures
        forall|k: int|
            0 <= k < run_length(src, dst, threshold, i, j) ==> 0 <= i - k && 0 <= j - k
                && #[trigger] hashes_match(src[i - k].0, dst[j - k].0, threshold),
        ({
            let len = run_length(src, dst, threshold, i, j);
            i - len < 0 || j - len < 0 || !hashes_match(src[i - len].0, dst[j - len].0, threshold)
        }),
    decreases i,
{
    let len = run_length(src, dst, threshold, i, j);
    if hashes_match(src[i].0, dst[j].0, threshold) {
        let inner = run_length(src, dst, threshold, i - 1, j - 1);
        assert(len == 1 + inner);
        lemma_run_length_bound(src, dst, threshold, i - 1, j - 1);
        if i > 0 && j > 0 {
            lemma_run_is_maximal(src, dst, threshold, i - 1, j - 1);
        }
        assert forall|k: int| 0 <= k < len implies 0 <= i - k && 0 <= j - k
            && #[trigger] hashes_match(src[i - k].0, dst[j - k].0, threshold) by {
            if k > 0 {
                assert(i > 0 && j > 0);
                assert(hashes_match(src[(i - 1) - (k - 1)].0, dst[(j - 1) - (k - 1)].0, threshold));
                assert((i - 1) - (k - 1) == i - k);
                assert((j - 1) - (k - 1) == j - k);
            } else {
                assert(i - k == i && j - k == j);
            }
        }
        if i > 0 && j > 0 {
            assert((i - 1) - inner == i - len);
            assert((j - 1) - inner == j - len);
        }
    } else {
        assert(len == 0);
    }
}

/// The runs of two streams are those of the streams exchanged.
pub proof fn lemma_run_length_symmetric(
    src: Seq<(u32, u64)>,
    dst: Seq<(u32, u64)>,
    threshold: u32,
    i: int,
    j: int,
)
    ensures
        run_length(src, dst, threshold, i, j) == run_length(dst, src, threshold, j, i),
    decreases i + 1,
{
    if 0 <= i < src.len() && 0 <= j < dst.len() {
        let a = src[i].0;
        let b = dst[j].0;
        assert(a ^ b == b ^ a) by (bit_vector);
        if hashes_match(a, b, threshold) {
            lemma_run_length_symmetric(src, dst, threshold, i - 1, j - 1);
        }
    }
}

impl Comparator {
    /// The matcher emits an entry for `(i, j)`: a run ends there and is
    /// accepted.
    pub open spec fn emits(
        &self,
        src: Seq<(u32, u64)>,
        dst: Seq<(u32, u64)>,
        src_info: StreamInfo,
        dst_info: StreamInfo,
        i: int,
        j: int,
    ) -> bool {
        &&& ends_run(src, dst, self.hash_match_threshold, i, j)
        &&& accepted(
            entry_at(src, dst, self.hash_match_threshold, src_info, dst_info, i, j),
            self.min_opening_duration,
            self.min_ending_duration,
        )
    }

    /// The entries of row `i` for its last `k` columns, the last column first.
    pub open spec fn row_scan(
        &self,
        src: Seq<(u32, u64)>,
        dst: Seq<(u32, u64)>,
        src_info: StreamInfo,
        dst_info: StreamInfo,
        i: int,
        k: int,
    ) -> Seq<MatchEntry>
        decreases k,
    {
        if k <= 0 {
            Seq::empty()
        } else {
            let before = self.row_scan(src, dst, src_info, dst_info, i, k - 1);
            let j = dst.len() - k;
            if self.emits(src, dst, src_info, dst_info, i, j) {
                before.push(
                    entry_at(src, dst, self.hash_match_threshold, src_info, dst_info, i, j),
                )
            } else {
                before
            }
        }
    }

    /// The entries of the last `r` rows, the last row first.
    pub open spec fn table_scan(
        &self,
        src: Seq<(u32, u64)>,
        dst: Seq<(u32, u64)>,
        src_info: StreamInfo,
        dst_info: StreamInfo,
        r: int,
    ) -> Seq<MatchEntry>
        decreases r,
    {
        if r <= 0 {
            Seq::empty()
        } else {
            self.table_scan(src, dst, src_info, dst_info, r - 1) + self.row_scan(
                src,
                dst,
                src_info,
                dst_info,
                src.len() - r,
                dst.len() as int,
            )
        }
    }

    /// Every accepted run of the two streams, once: the run that ends latest
    /// in the source first, and among runs that end at one source position the
    /// one that ends latest in the destination first.
    pub open spec fn common_hash_matches(
        &self,
        src: Seq<(u32, u64)>,
        dst: Seq<(u32, u64)>,
        src_info: StreamInfo,
        dst_info: StreamInfo,
    ) -> Seq<MatchEntry> {
        self.table_scan(src, dst, src_info, dst_info, src.len() as int)
    }
}


/// The table has one row for each source position and one cell for each
/// destination position, and each cell holds the length of the run that ends
/// there.
pub open spec fn table_holds_runs(
    table: Seq<Vec<usize>>,
    src: Seq<(u32, u64)>,
    dst: Seq<(u32, u64)>,
    threshold: u32,
    rows: int,
) -> bool {
    &&& table.len() == rows
    &&& forall|r: int| 0 <= r < rows ==> (#[trigger] table[r])@.len() == dst.len()
    &&& forall|r: int, c: int|
        0 <= r < rows && 0 <= c < dst.len() ==> (#[trigger] table[r]@[c]) == run_length(
            src,
            dst,
            threshold,
            r,
            c,
        )
}

/// Fills the table of run lengths, row by row.
fn build_table(src: &[(u32, u64)], dst: &[(u32, u64)], threshold: u32) -> (table: Vec<Vec<usize>>)
    ensures
        table_holds_runs(table@, src@, dst@, threshold, src@.len() as int),
{
    let n = src.len();
    let m = dst.len();
    let mut table: Vec<Vec<usize>> = Vec::new();
    let mut i: usize = 0;
    while i < n
        invariant
            n == src@.len(),
            m == dst@.len(),
            0 <= i <= n,
            table_holds_runs(table@, src@, dst@, threshold, i as int),
        decreases n - i,
    {
        let mut row: Vec<usize> = Vec::new();
        let mut j: usize = 0;
        while j < m
            invariant
                n == src@.len(),
                m == dst@.len(),
                0 <= i < n,
                0 <= j <= m,
                table_holds_runs(table@, src@, dst@, threshold, i as int),
                row@.len() == j,
                forall|c: int| 0 <= c < j ==> (#[trigger] row@[c]) == run_length(
                    src@,
                    dst@,
                    threshold,
                    i as int,
                    c,
                ),
            decreases m - j,
        {
            let d = hamming_distance(src[i].0, dst[j].0);
            let v: usize = if d <= threshold {
                if i > 0 && j > 0 {
                    proof {
                        lemma_run_length_bound(src@, dst@, threshold, i - 1, j - 1);
                        assert(table@[i - 1]@[j - 1] == run_length(
                            src@,
                            dst@,
                            threshold,
                            i - 1,
                            j - 1,
                        ));
                    }
                    table[i - 1][j - 1] + 1
                } else {
                    proof {
                        lemma_run_length_bound(src@, dst@, threshold, i - 1, j - 1);
                    }
                    1
                }
            } else {
                0
            };
            row.push(v);
            j += 1;
        }
        let ghost before = table@;
        table.push(row);
        proof {
            assert forall|r: int, c: int| 0 <= r < i + 1 && 0 <= c < dst@.len() implies (
            #[trigger] table@[r]@[c]) == run_length(src@, dst@, threshold, r, c) by {
                if r < i {
                    assert(table@[r] == before[r]);
                }
            }
            assert forall|r: int| 0 <= r < i + 1 implies (#[trigger] table@[r])@.len()
                == dst@.len() by {
                if r < i {
                    assert(table@[r] == before[r]);
                }
            }
        }
        i += 1;
    }
    table
}

/// The hashes of a stream, without their timestamps.
fn stream_hashes(s: &[(u32, u64)]) -> (h: Vec<u32>)
    ensures
        h@ == hashes_of(s@),
{
    let mut h: Vec<u32> = Vec::new();
    let mut k: usize = 0;
    while k < s.len()
        invariant
            0 <= k <= s.len(),
            h@.len() == k,
            forall|t: int| 0 <= t < k ==> h@[t] == s@[t].0,
        decreases s.len() - k,
    {
        h.push(s[k].0);
        k += 1;
    }
    assert(h@ =~= hashes_of(s@));
    h
}

/// Whether one side of a run is valid.
fn is_side_valid(
    is_opening: bool,
    is_ending: bool,
    range: (u64, u64),
    min_opening: u64,
    min_ending: u64,
) -> (b: bool)
    requires
        range.0 <= range.1,
    ensures
        b == side_valid(is_opening, is_ending, range, min_opening, min_ending),
{
    let duration = range.1 - range.0;
    (is_opening && duration >= min_opening) || (is_ending && duration >= min_ending)
}

/// Whether a run is accepted.
pub fn is_accepted(e: &MatchEntry, min_opening: u64, min_ending: u64) -> (b: bool)
    requires
        e.wf(),
    ensures
        b == accepted(*e, min_opening, min_ending),
{
    is_side_valid(e.src_is_opening, e.src_is_ending, e.src_range, min_opening, min_ending)
        && is_side_valid(e.dst_is_opening, e.dst_is_ending, e.dst_range, min_opening, min_ending)
        && ((e.src_is_opening && e.dst_is_opening) || (e.src_is_ending && e.dst_is_ending))
}

impl Comparator {
    /// Finds the runs that `src` and `dst` share and that are accepted: for
    /// every pair of positions at which a run ends, the entry of that run if
    /// each of its sides is an opening that lasts at least the minimum
    /// opening duration or an ending that lasts at least the minimum ending
    /// duration, and both sides are openings or both are endings. The run
    /// that ends last in the source comes first. Takes time and space in
    /// proportion to the product of the two lengths.
    pub fn longest_common_hash_match(
        &self,
        src: &[(u32, u64)],
        dst: &[(u32, u64)],
        src_info: StreamInfo,
        dst_info: StreamInfo,
    ) -> (out: Vec<MatchEntry>)
        requires
            is_monotonic(src@),
            is_monotonic(dst@),
        ensures
            out@ == self.common_hash_matches(src@, dst@, src_info, dst_info),
            entries_wf(out@),
    {
        let n = src.len();
        let m = dst.len();
        let threshold = self.hash_match_threshold;
        let table = build_table(src, dst, threshold);
        let src_hashes = stream_hashes(src);
        let dst_hashes = stream_hashes(dst);
        let mut out: Vec<MatchEntry> = Vec::new();
        let mut r: usize = 0;
        while r < n
            invariant
                n == src@.len(),
                m == dst@.len(),
                0 <= r <= n,
                threshold == self.hash_match_threshold,
                is_monotonic(src@),
                is_monotonic(dst@),
                table_holds_runs(table@, src@, dst@, threshold, n as int),
                src_hashes@ == hashes_of(src@),
                dst_hashes@ == hashes_of(dst@),
                out@ == self.table_scan(src@, dst@, src_info, dst_info, r as int),
                entries_wf(out@),
            decreases n - r,
        {
            let i = n - 1 - r;
            let ghost base = out@;
            let mut k: usize = 0;
            while k < m
                invariant
                    n == src@.len(),
                    m == dst@.len(),
                    0 <= r < n,
                    i == n - 1 - r,
                    0 <= k <= m,
                    threshold == self.hash_match_threshold,
                    is_monotonic(src@),
                    is_monotonic(dst@),
                    table_holds_runs(table@, src@, dst@, threshold, n as int),
                    src_hashes@ == hashes_of(src@),
                    dst_hashes@ == hashes_of(dst@),
                    out@ == base + self.row_scan(src@, dst@, src_info, dst_info, i as int, k as int),
                    entries_wf(out@),
                decreases m - k,
            {
                let j = m - 1 - k;
                let len = table[i][j];
                let ghost before = self.row_scan(src@, dst@, src_info, dst_info, i as int, k as int);
                proof {
                    assert(table@[i as int]@[j as int] == run_length(
                        src@,
                        dst@,
                        threshold,
                        i as int,
                        j as int,
                    ));
                    lemma_run_length_bound(src@, dst@, threshold, i as int, j as int);
                }
                let next_is_zero = if i + 1 < n && j + 1 < m {
                    proof {
                        assert(table@[i + 1]@[j + 1] == run_length(
                            src@,
                            dst@,
                            threshold,
                            i + 1,
                            j + 1,
                        ));
                    }
                    table[i + 1][j + 1] == 0
                } else {
                    true
                };
                if len > 0 && next_is_zero {
                    let a = i + 1 - len;
                    let b = j + 1 - len;
                    let e = MatchEntry {
                        run_length: len,
                        src_range: (src[a].1, src[i].1),
                        dst_range: (dst[b].1, dst[j].1),
                        src_summary_hash: simhash32(slice_subrange(src_hashes.as_slice(), a, i + 1)),
                        dst_summary_hash: simhash32(slice_subrange(dst_hashes.as_slice(), b, j + 1)),
                        src_is_opening: src[i].1 < src_info.max_opening_time,
                        src_is_ending: src[a].1 > src_info.min_ending_time,
                        dst_is_opening: dst[j].1 < dst_info.max_opening_time,
                        dst_is_ending: dst[b].1 > dst_info.min_ending_time,
                        src_hash_window: src_info.hash_window,
                        dst_hash_window: dst_info.hash_window,
                    };
                    assert(e == entry_at(src@, dst@, threshold, src_info, dst_info, i as int, j as int));
                    assert(e.wf());
                    if is_accepted(&e, self.min_opening_duration, self.min_ending_duration) {
                        out.push(e);
                        assert(out@ == base + before.push(e));
                    }
                }
                k += 1;
            }
            proof {
                assert(self.table_scan(src@, dst@, src_info, dst_info, r + 1) == base
                    + self.row_scan(src@, dst@, src_info, dst_info, i as int, m as int));
            }
            r += 1;
        }
        out
    }
}

} // verus!
