//! What holds of the runs that the matcher finds.

use vstd::prelude::*;

use super::comparator::{Comparator, MatchEntry};
use super::matcher::{
    accepted, entry_at, hashes_match, lemma_run_length_symmetric, run_length, StreamInfo,
};

verus! {

/// The entry with its two sides exchanged.
pub open spec fn swapped(e: MatchEntry) -> MatchEntry {
    MatchEntry {
        run_length: e.run_length,
        src_range: e.dst_range,
        dst_range: e.src_range,
        src_summary_hash: e.dst_summary_hash,
        dst_summary_hash: e.src_summary_hash,
        src_is_opening: e.dst_is_opening,
        src_is_ending: e.dst_is_ending,
        dst_is_opening: e.src_is_opening,
        dst_is_ending: e.src_is_ending,
        src_hash_window: e.dst_hash_window,
        dst_hash_window: e.src_hash_window,
    }
}

impl Comparator {
    /// Some position of row `i` among its last `k` columns emits `e`.
    pub open spec fn row_emits(
        &self,
        src: Seq<(u32, u64)>,
        dst: Seq<(u32, u64)>,
        src_info: StreamInfo,
        dst_info: StreamInfo,
        i: int,
        k: int,
        e: MatchEntry,
    ) -> bool {
        exists|j: int|
            dst.len() - k <= j < dst.len() && #[trigger] self.emits(src, dst, src_info, dst_info, i, j)
                && e == entry_at(src, dst, self.hash_match_threshold, src_info, dst_info, i, j)
    }

    /// Some position of the two streams emits `e`: a run ends there, is
    /// accepted, and `e` is its entry.
    pub open spec fn some_position_emits(
        &self,
        src: Seq<(u32, u64)>,
        dst: Seq<(u32, u64)>,
        src_info: StreamInfo,
        dst_info: StreamInfo,
        e: MatchEntry,
    ) -> bool {
        exists|i: int, j: int|
            0 <= i < src.len() && 0 <= j < dst.len() && #[trigger] self.emits(
                src,
                dst,
                src_info,
                dst_info,
                i,
                j,
            ) && e == entry_at(src, dst, self.hash_match_threshold, src_info, dst_info, i, j)
    }

    proof fn lemma_row_scan_contains(
        &self,
        src: Seq<(u32, u64)>,
        dst: Seq<(u32, u64)>,
        src_info: StreamInfo,
        dst_info: StreamInfo,
        i: int,
        k: int,
        e: MatchEntry,
    )
        requires
            0 <= k <= dst.len(),
        ensures
            self.row_scan(src, dst, src_info, dst_info, i, k).contains(e) <==> self.row_emits(
                src,
                dst,
                src_info,
                dst_info,
                i,
                k,
                e,
            ),
        decreases k,
    {
        let scan = self.row_scan(src, dst, src_info, dst_info, i, k);
        if k > 0 {
            let before = self.row_scan(src, dst, src_info, dst_info, i, k - 1);
            let j0 = dst.len() - k;
            let e0 = entry_at(src, dst, self.hash_match_threshold, src_info, dst_info, i, j0);
            self.lemma_row_scan_contains(src, dst, src_info, dst_info, i, k - 1, e);
            if scan.contains(e) {
                let t = choose|t: int| 0 <= t < scan.len() && scan[t] == e;
                if t < before.len() {
                    assert(before[t] == e);
                    assert(before.contains(e));
                    let j = choose|j: int|
                        dst.len() - (k - 1) <= j < dst.len() && #[trigger] self.emits(
                            src,
                            dst,
                            src_info,
                            dst_info,
                            i,
                            j,
                        ) && e == entry_at(
                            src,
                            dst,
                            self.hash_match_threshold,
                            src_info,
                            dst_info,
                            i,
                            j,
                        );
                    assert(self.emits(src, dst, src_info, dst_info, i, j));
                } else {
                    assert(self.emits(src, dst, src_info, dst_info, i, j0));
                    assert(e == e0);
                }
            }
            if self.row_emits(src, dst, src_info, dst_info, i, k, e) {
                let j = choose|j: int|
                    dst.len() - k <= j < dst.len() && #[trigger] self.emits(
                        src,
                        dst,
                        src_info,
                        dst_info,
                        i,
                        j,
                    ) && e == entry_at(
                        src,
                        dst,
                        self.hash_match_threshold,
                        src_info,
                        dst_info,
                        i,
                        j,
                    );
                if j == j0 {
                    assert(scan == before.push(e0));
                    assert(scan[before.len() as int] == e);
                } else {
                    assert(self.emits(src, dst, src_info, dst_info, i, j));
                    assert(self.row_emits(src, dst, src_info, dst_info, i, k - 1, e));
                    let t = choose|t: int| 0 <= t < before.len() && before[t] == e;
                    assert(scan[t] == e);
                }
            }
        } else {
            assert(scan.len() == 0);
        }
    }

    proof fn lemma_table_scan_contains(
        &self,
        src: Seq<(u32, u64)>,
        dst: Seq<(u32, u64)>,
        src_info: StreamInfo,
        dst_info: StreamInfo,
        r: int,
        e: MatchEntry,
    )
        requires
            0 <= r <= src.len(),
        ensures
            self.table_scan(src, dst, src_info, dst_info, r).contains(e) <==> exists|i: int|
                src.len() - r <= i < src.len() && #[trigger] self.row_emits(
                    src,
                    dst,
                    src_info,
                    dst_info,
                    i,
                    dst.len() as int,
                    e,
                ),
        decreases r,
    {
        let scan = self.table_scan(src, dst, src_info, dst_info, r);
        let m = dst.len() as int;
        if r > 0 {
            let before = self.table_scan(src, dst, src_info, dst_info, r - 1);
            let i0 = src.len() - r;
            let row = self.row_scan(src, dst, src_info, dst_info, i0, m);
            assert(scan == before + row);
            self.lemma_table_scan_contains(src, dst, src_info, dst_info, r - 1, e);
            self.lemma_row_scan_contains(src, dst, src_info, dst_info, i0, m, e);
            if scan.contains(e) {
                let t = choose|t: int| 0 <= t < scan.len() && scan[t] == e;
                if t < before.len() {
                    assert(before[t] == e);
                    assert(before.contains(e));
                    let i = choose|i: int|
                        src.len() - (r - 1) <= i < src.len() && #[trigger] self.row_emits(
                            src,
                            dst,
                            src_info,
                            dst_info,
                            i,
                            m,
                            e,
                        );
                    assert(self.row_emits(src, dst, src_info, dst_info, i, m, e));
                } else {
                    assert(row[t - before.len()] == e);
                    assert(row.contains(e));
                    assert(self.row_emits(src, dst, src_info, dst_info, i0, m, e));
                }
            }
            if exists|i: int|
                src.len() - r <= i < src.len() && #[trigger] self.row_emits(
                    src,
                    dst,
                    src_info,
                    dst_info,
                    i,
                    m,
                    e,
                ) {
                let i = choose|i: int|
                    src.len() - r <= i < src.len() && #[trigger] self.row_emits(
                        src,
                        dst,
                        src_info,
                        dst_info,
                        i,
                        m,
                        e,
                    );
                if i == i0 {
                    assert(row.contains(e));
                    let t = choose|t: int| 0 <= t < row.len() && row[t] == e;
                    assert(scan[before.len() + t] == e);
                } else {
                    assert(self.row_emits(src, dst, src_info, dst_info, i, m, e));
                    assert(before.contains(e));
                    let t = choose|t: int| 0 <= t < before.len() && before[t] == e;
                    assert(scan[t] == e);
                }
            }
        } else {
            assert(scan.len() == 0);
        }
    }

    /// The matcher's result holds exactly the entries of the runs that are
    /// accepted: `e` is in it if and only if a run ends at some pair of
    /// positions, is accepted, and has `e` as its entry.
    pub proof fn lemma_matches_are_accepted_runs(
        &self,
        src: Seq<(u32, u64)>,
        dst: Seq<(u32, u64)>,
        src_info: StreamInfo,
        dst_info: StreamInfo,
        e: MatchEntry,
    )
        ensures
            self.common_hash_matches(src, dst, src_info, dst_info).contains(e)
                <==> self.some_position_emits(src, dst, src_info, dst_info, e),
    {
        let m = dst.len() as int;
        self.lemma_table_scan_contains(src, dst, src_info, dst_info, src.len() as int, e);
        if self.common_hash_matches(src, dst, src_info, dst_info).contains(e) {
            let i = choose|i: int|
                0 <= i < src.len() && #[trigger] self.row_emits(src, dst, src_info, dst_info, i, m, e);
            let j = choose|j: int|
                0 <= j < dst.len() && #[trigger] self.emits(src, dst, src_info, dst_info, i, j) && e
                    == entry_at(src, dst, self.hash_match_threshold, src_info, dst_info, i, j);
            assert(self.emits(src, dst, src_info, dst_info, i, j));
        }
        if self.some_position_emits(src, dst, src_info, dst_info, e) {
            let (i, j) = choose|i: int, j: int|
                0 <= i < src.len() && 0 <= j < dst.len() && #[trigger] self.emits(
                    src,
                    dst,
                    src_info,
                    dst_info,
                    i,
                    j,
                ) && e == entry_at(src, dst, self.hash_match_threshold, src_info, dst_info, i, j);
            assert(self.emits(src, dst, src_info, dst_info, i, j));
            assert(self.row_emits(src, dst, src_info, dst_info, i, m, e));
        }
    }

    /// Exchanging the two streams exchanges the two sides of every entry and
    /// changes nothing else: `e` is found for `src` and `dst` if and only if
    /// `e` with its sides exchanged is found for `dst` and `src`.
    pub proof fn lemma_matches_symmetric(
        &self,
        src: Seq<(u32, u64)>,
        dst: Seq<(u32, u64)>,
        src_info: StreamInfo,
        dst_info: StreamInfo,
        e: MatchEntry,
    )
        ensures
            self.common_hash_matches(src, dst, src_info, dst_info).contains(e)
                <==> self.common_hash_matches(dst, src, dst_info, src_info).contains(swapped(e)),
    {
        self.lemma_matches_are_accepted_runs(src, dst, src_info, dst_info, e);
        self.lemma_matches_are_accepted_runs(dst, src, dst_info, src_info, swapped(e));
        let th = self.hash_match_threshold;
        assert forall|i: int, j: int| 0 <= i < src.len() && 0 <= j < dst.len() implies (
        #[trigger] self.emits(src, dst, src_info, dst_info, i, j) == self.emits(
            dst,
            src,
            dst_info,
            src_info,
            j,
            i,
        )) && entry_at(dst, src, th, dst_info, src_info, j, i) == swapped(
            entry_at(src, dst, th, src_info, dst_info, i, j),
        ) by {
            lemma_run_length_symmetric(src, dst, th, i, j);
            lemma_run_length_symmetric(src, dst, th, i + 1, j + 1);
        }
        if self.some_position_emits(src, dst, src_info, dst_info, e) {
            let (i, j) = choose|i: int, j: int|
                0 <= i < src.len() && 0 <= j < dst.len() && #[trigger] self.emits(
                    src,
                    dst,
                    src_info,
                    dst_info,
                    i,
                    j,
                ) && e == entry_at(src, dst, th, src_info, dst_info, i, j);
            assert(self.emits(src, dst, src_info, dst_info, i, j));
            assert(self.emits(dst, src, dst_info, src_info, j, i));
        }
        if self.some_position_emits(dst, src, dst_info, src_info, swapped(e)) {
            let (j, i) = choose|j: int, i: int|
                0 <= j < dst.len() && 0 <= i < src.len() && #[trigger] self.emits(
                    dst,
                    src,
                    dst_info,
                    src_info,
                    j,
                    i,
                ) && swapped(e) == entry_at(dst, src, th, dst_info, src_info, j, i);
            assert(self.emits(src, dst, src_info, dst_info, i, j));
            assert(swapped(swapped(e)) == e);
            assert(swapped(entry_at(src, dst, th, src_info, dst_info, i, j)) == swapped(e));
            assert(swapped(swapped(entry_at(src, dst, th, src_info, dst_info, i, j)))
                == entry_at(src, dst, th, src_info, dst_info, i, j));
        }
    }
}

/// How often `e` stands in `s`.
pub open spec fn occurrences(s: Seq<MatchEntry>, e: MatchEntry) -> nat
    decreases s.len(),
{
    if s.len() == 0 {
        0
    } else {
        occurrences(s.drop_last(), e) + if s.last() == e {
            1nat
        } else {
            0nat
        }
    }
}

proof fn lemma_occurrences_add(a: Seq<MatchEntry>, b: Seq<MatchEntry>, e: MatchEntry)
    ensures
        occurrences(a + b, e) == occurrences(a, e) + occurrences(b, e),
    decreases b.len(),
{
    if b.len() > 0 {
        assert((a + b).drop_last() =~= a + b.drop_last());
        assert((a + b).last() == b.last());
        lemma_occurrences_add(a, b.drop_last(), e);
    } else {
        assert(a + b =~= a);
    }
}

/// The two streams with what the matcher is told about them.
pub struct Pairing {
    pub src: Seq<(u32, u64)>,
    pub dst: Seq<(u32, u64)>,
    pub src_info: StreamInfo,
    pub dst_info: StreamInfo,
}

impl Pairing {
    /// The pairing with source and destination exchanged.
    pub open spec fn flipped(self) -> Pairing {
        Pairing { src: self.dst, dst: self.src, src_info: self.dst_info, dst_info: self.src_info }
    }
}

impl Comparator {
    /// The runs of a pairing.
    pub open spec fn matches_of(&self, p: Pairing) -> Seq<MatchEntry> {
        self.common_hash_matches(p.src, p.dst, p.src_info, p.dst_info)
    }

    /// One if the position `(i, j)` emits `e`, else zero.
    spec fn hit(&self, p: Pairing, e: MatchEntry, i: int, j: int) -> nat {
        if self.emits(p.src, p.dst, p.src_info, p.dst_info, i, j) && entry_at(
            p.src,
            p.dst,
            self.hash_match_threshold,
            p.src_info,
            p.dst_info,
            i,
            j,
        ) == e {
            1
        } else {
            0
        }
    }

    /// How many of the last `k` positions of row `i` emit `e`.
    spec fn row_hits(&self, p: Pairing, e: MatchEntry, i: int, k: int) -> nat
        decreases k,
    {
        if k <= 0 {
            0
        } else {
            self.row_hits(p, e, i, k - 1) + self.hit(p, e, i, p.dst.len() - k)
        }
    }

    /// How many of the last `r` positions of column `j` emit `e`.
    spec fn col_hits(&self, p: Pairing, e: MatchEntry, j: int, r: int) -> nat
        decreases r,
    {
        if r <= 0 {
            0
        } else {
            self.col_hits(p, e, j, r - 1) + self.hit(p, e, p.src.len() - r, j)
        }
    }

    /// How many positions in the last `r` rows and last `k` columns emit `e`,
    /// counted row by row.
    spec fn hits_by_rows(&self, p: Pairing, e: MatchEntry, r: int, k: int) -> nat
        decreases r,
    {
        if r <= 0 {
            0
        } else {
            self.hits_by_rows(p, e, r - 1, k) + self.row_hits(p, e, p.src.len() - r, k)
        }
    }

    /// The same, counted column by column.
    spec fn hits_by_cols(&self, p: Pairing, e: MatchEntry, r: int, k: int) -> nat
        decreases k,
    {
        if k <= 0 {
            0
        } else {
            self.hits_by_cols(p, e, r, k - 1) + self.col_hits(p, e, p.dst.len() - k, r)
        }
    }

    proof fn lemma_row_scan_occurrences(&self, p: Pairing, e: MatchEntry, i: int, k: int)
        requires
            0 <= k,
        ensures
            occurrences(self.row_scan(p.src, p.dst, p.src_info, p.dst_info, i, k), e)
                == self.row_hits(p, e, i, k),
        decreases k,
    {
        if k > 0 {
            self.lemma_row_scan_occurrences(p, e, i, k - 1);
            let before = self.row_scan(p.src, p.dst, p.src_info, p.dst_info, i, k - 1);
            let j = p.dst.len() - k;
            if self.emits(p.src, p.dst, p.src_info, p.dst_info, i, j) {
                let x = entry_at(
                    p.src,
                    p.dst,
                    self.hash_match_threshold,
                    p.src_info,
                    p.dst_info,
                    i,
                    j,
                );
                assert(before.push(x).drop_last() =~= before);
                assert(before.push(x).last() == x);
            }
        }
    }

    proof fn lemma_table_scan_occurrences(&self, p: Pairing, e: MatchEntry, r: int)
        requires
            0 <= r,
        ensures
            occurrences(self.table_scan(p.src, p.dst, p.src_info, p.dst_info, r), e)
                == self.hits_by_rows(p, e, r, p.dst.len() as int),
        decreases r,
    {
        if r > 0 {
            self.lemma_table_scan_occurrences(p, e, r - 1);
            self.lemma_row_scan_occurrences(p, e, p.src.len() - r, p.dst.len() as int);
            lemma_occurrences_add(
                self.table_scan(p.src, p.dst, p.src_info, p.dst_info, r - 1),
                self.row_scan(
                    p.src,
                    p.dst,
                    p.src_info,
                    p.dst_info,
                    p.src.len() - r,
                    p.dst.len() as int,
                ),
                e,
            );
        }
    }

    proof fn lemma_no_hits_in_no_columns(&self, p: Pairing, e: MatchEntry, r: int)
        requires
            0 <= r,
        ensures
            self.hits_by_rows(p, e, r, 0) == 0,
        decreases r,
    {
        if r > 0 {
            self.lemma_no_hits_in_no_columns(p, e, r - 1);
        }
    }

    proof fn lemma_hits_one_more_column(&self, p: Pairing, e: MatchEntry, r: int, k: int)
        requires
            0 <= r,
            1 <= k,
        ensures
            self.hits_by_rows(p, e, r, k) == self.hits_by_rows(p, e, r, k - 1) + self.col_hits(
                p,
                e,
                p.dst.len() - k,
                r,
            ),
        decreases r,
    {
        if r > 0 {
            self.lemma_hits_one_more_column(p, e, r - 1, k);
        }
    }

    proof fn lemma_rows_or_columns(&self, p: Pairing, e: MatchEntry, r: int, k: int)
        requires
            0 <= r,
            0 <= k,
        ensures
            self.hits_by_rows(p, e, r, k) == self.hits_by_cols(p, e, r, k),
        decreases k,
    {
        if k > 0 {
            self.lemma_rows_or_columns(p, e, r, k - 1);
            self.lemma_hits_one_more_column(p, e, r, k);
        } else {
            self.lemma_no_hits_in_no_columns(p, e, r);
        }
    }

    proof fn lemma_hit_flipped(&self, p: Pairing, e: MatchEntry, i: int, j: int)
        ensures
            self.hit(p.flipped(), swapped(e), j, i) == self.hit(p, e, i, j),
    {
        let th = self.hash_match_threshold;
        lemma_run_length_symmetric(p.src, p.dst, th, i, j);
        lemma_run_length_symmetric(p.src, p.dst, th, i + 1, j + 1);
        let x = entry_at(p.src, p.dst, th, p.src_info, p.dst_info, i, j);
        let y = entry_at(p.dst, p.src, th, p.dst_info, p.src_info, j, i);
        if 0 <= i < p.src.len() && 0 <= j < p.dst.len() {
            assert(y == swapped(x));
            assert(swapped(swapped(x)) == x);
            assert(swapped(swapped(e)) == e);
        }
    }

    proof fn lemma_row_hits_flipped(&self, p: Pairing, e: MatchEntry, j: int, r: int)
        requires
            0 <= r,
        ensures
            self.row_hits(p.flipped(), swapped(e), j, r) == self.col_hits(p, e, j, r),
        decreases r,
    {
        if r > 0 {
            self.lemma_row_hits_flipped(p, e, j, r - 1);
            self.lemma_hit_flipped(p, e, p.src.len() - r, j);
        }
    }

    proof fn lemma_hits_flipped(&self, p: Pairing, e: MatchEntry, k: int, r: int)
        requires
            0 <= k,
            0 <= r,
        ensures
            self.hits_by_rows(p.flipped(), swapped(e), k, r) == self.hits_by_cols(p, e, r, k),
        decreases k,
    {
        if k > 0 {
            self.lemma_hits_flipped(p, e, k - 1, r);
            self.lemma_row_hits_flipped(p, e, p.dst.len() - k, r);
        }
    }

    /// Exchanging the two streams exchanges the two sides of every entry and
    /// changes nothing else, the number of entries included: `e` is found for
    /// a pairing as often as `e` with its sides exchanged is found for the
    /// pairing with its streams exchanged.
    pub proof fn lemma_matches_symmetric_in_number(&self, p: Pairing, e: MatchEntry)
        ensures
            occurrences(self.matches_of(p), e) == occurrences(
                self.matches_of(p.flipped()),
                swapped(e),
            ),
    {
        let n = p.src.len() as int;
        let m = p.dst.len() as int;
        self.lemma_table_scan_occurrences(p, e, n);
        self.lemma_table_scan_occurrences(p.flipped(), swapped(e), m);
        self.lemma_rows_or_columns(p, e, n, m);
        self.lemma_hits_flipped(p, e, m, n);
    }
}

/// Lowering a minimum duration can only add entries, and raising it can only
/// remove entries: with the same threshold, whatever is found under the higher
/// minimum durations is found under the lower ones.
pub proof fn lemma_duration_gate(
    low: &Comparator,
    high: &Comparator,
    src: Seq<(u32, u64)>,
    dst: Seq<(u32, u64)>,
    src_info: StreamInfo,
    dst_info: StreamInfo,
    e: MatchEntry,
)
    requires
        low.hash_match_threshold == high.hash_match_threshold,
        low.min_opening_duration <= high.min_opening_duration,
        low.min_ending_duration <= high.min_ending_duration,
        high.common_hash_matches(src, dst, src_info, dst_info).contains(e),
    ensures
        low.common_hash_matches(src, dst, src_info, dst_info).contains(e),
{
    high.lemma_matches_are_accepted_runs(src, dst, src_info, dst_info, e);
    low.lemma_matches_are_accepted_runs(src, dst, src_info, dst_info, e);
    let (i, j) = choose|i: int, j: int|
        0 <= i < src.len() && 0 <= j < dst.len() && #[trigger] high.emits(
            src,
            dst,
            src_info,
            dst_info,
            i,
            j,
        ) && e == entry_at(src, dst, high.hash_match_threshold, src_info, dst_info, i, j);
    assert(low.emits(src, dst, src_info, dst_info, i, j));
}

/// The streams match along one diagonal and nowhere else: for `k` below
/// `n`, position `k` of the source matches position `p + k` of the
/// destination, and no other two positions match.
pub open spec fn only_diagonal(p: Pairing, threshold: u32, shift: int, n: int) -> bool {
    &&& 1 <= n <= p.src.len()
    &&& 0 <= shift
    &&& shift + n <= p.dst.len()
    &&& forall|i: int, j: int|
        0 <= i < p.src.len() && 0 <= j < p.dst.len() ==> (#[trigger] hashes_match(
            p.src[i].0,
            p.dst[j].0,
            threshold,
        ) <==> (i < n && j == shift + i))
}

proof fn lemma_diagonal_run_length(p: Pairing, threshold: u32, shift: int, n: int, i: int, j: int)
    requires
        only_diagonal(p, threshold, shift, n),
    ensures
        run_length(p.src, p.dst, threshold, i, j) == if 0 <= i < n && j == shift + i {
            i + 1
        } else {
            0
        },
    decreases i + 1,
{
    if 0 <= i < p.src.len() && 0 <= j < p.dst.len() {
        assert(hashes_match(p.src[i].0, p.dst[j].0, threshold) <==> (i < n && j == shift + i));
        if i < n && j == shift + i {
            lemma_diagonal_run_length(p, threshold, shift, n, i - 1, j - 1);
        }
    }
}

impl Comparator {
    /// What the matcher finds where the streams match along one diagonal of
    /// `n` positions only: the entry of that one run if it is accepted, else
    /// nothing.
    pub open spec fn diagonal_matches(&self, p: Pairing, shift: int, n: int) -> Seq<MatchEntry> {
        let e = entry_at(
            p.src,
            p.dst,
            self.hash_match_threshold,
            p.src_info,
            p.dst_info,
            n - 1,
            shift + n - 1,
        );
        if accepted(e, self.min_opening_duration, self.min_ending_duration) {
            seq![e]
        } else {
            Seq::empty()
        }
    }

    proof fn lemma_diagonal_emits(&self, p: Pairing, shift: int, n: int, i: int, j: int)
        requires
            only_diagonal(p, self.hash_match_threshold, shift, n),
            0 <= i < p.src.len(),
            0 <= j < p.dst.len(),
        ensures
            self.emits(p.src, p.dst, p.src_info, p.dst_info, i, j) <==> (i == n - 1 && j == shift
                + n - 1 && self.diagonal_matches(p, shift, n).len() == 1),
    {
        let th = self.hash_match_threshold;
        lemma_diagonal_run_length(p, th, shift, n, i, j);
        lemma_diagonal_run_length(p, th, shift, n, i + 1, j + 1);
    }

    proof fn lemma_diagonal_row(&self, p: Pairing, shift: int, n: int, i: int, k: int)
        requires
            only_diagonal(p, self.hash_match_threshold, shift, n),
            0 <= i < p.src.len(),
            0 <= k <= p.dst.len(),
        ensures
            self.row_scan(p.src, p.dst, p.src_info, p.dst_info, i, k) == if i == n - 1
                && p.dst.len() - k <= shift + n - 1 {
                self.diagonal_matches(p, shift, n)
            } else {
                Seq::<MatchEntry>::empty()
            },
        decreases k,
    {
        if k > 0 {
            self.lemma_diagonal_row(p, shift, n, i, k - 1);
            self.lemma_diagonal_emits(p, shift, n, i, p.dst.len() - k);
            let before = self.row_scan(p.src, p.dst, p.src_info, p.dst_info, i, k - 1);
            let now = self.row_scan(p.src, p.dst, p.src_info, p.dst_info, i, k);
            if self.emits(p.src, p.dst, p.src_info, p.dst_info, i, p.dst.len() - k) {
                assert(before.len() == 0);
                assert(now =~= self.diagonal_matches(p, shift, n));
            }
        }
    }

    proof fn lemma_diagonal_table(&self, p: Pairing, shift: int, n: int, r: int)
        requires
            only_diagonal(p, self.hash_match_threshold, shift, n),
            0 <= r <= p.src.len(),
        ensures
            self.table_scan(p.src, p.dst, p.src_info, p.dst_info, r) == if p.src.len() - r <= n
                - 1 {
                self.diagonal_matches(p, shift, n)
            } else {
                Seq::<MatchEntry>::empty()
            },
        decreases r,
    {
        if r > 0 {
            self.lemma_diagonal_table(p, shift, n, r - 1);
            self.lemma_diagonal_row(p, shift, n, p.src.len() - r, p.dst.len() as int);
            let before = self.table_scan(p.src, p.dst, p.src_info, p.dst_info, r - 1);
            let row = self.row_scan(
                p.src,
                p.dst,
                p.src_info,
                p.dst_info,
                p.src.len() - r,
                p.dst.len() as int,
            );
            assert(before + row =~= if p.src.len() - r <= n - 1 {
                self.diagonal_matches(p, shift, n)
            } else {
                Seq::<MatchEntry>::empty()
            });
        }
    }

    /// Where two streams match along one diagonal of `n` positions and
    /// nowhere else, the matcher finds that one run if it is accepted, and
    /// nothing else: a run of length `n` from the first to the last of those
    /// positions in either stream. So a clip and the same clip behind other
    /// audio share one run, which covers the whole clip in both.
    pub proof fn lemma_single_diagonal(&self, p: Pairing, shift: int, n: int)
        requires
            only_diagonal(p, self.hash_match_threshold, shift, n),
            p.src.len() <= usize::MAX,
        ensures
            self.matches_of(p) == self.diagonal_matches(p, shift, n),
            self.diagonal_matches(p, shift, n).len() <= 1,
            self.diagonal_matches(p, shift, n).len() == 1 ==> {
                let e = self.diagonal_matches(p, shift, n)[0];
                &&& e.run_length == n
                &&& e.src_range == (p.src[0].1, p.src[n - 1].1)
                &&& e.dst_range == (p.dst[shift].1, p.dst[shift + n - 1].1)
            },
    {
        self.lemma_diagonal_table(p, shift, n, p.src.len() as int);
        lemma_diagonal_run_length(p, self.hash_match_threshold, shift, n, n - 1, shift + n - 1);
    }
}

/// One comparator asks for no longer runs than another, and for the same
/// likeness of hashes.
pub open spec fn asks_no_more(low: &Comparator, high: &Comparator) -> bool {
    &&& low.hash_match_threshold == high.hash_match_threshold
    &&& low.min_opening_duration <= high.min_opening_duration
    &&& low.min_ending_duration <= high.min_ending_duration
}

proof fn lemma_row_hits_gate(low: &Comparator, high: &Comparator, p: Pairing, e: MatchEntry, i: int, k: int)
    requires
        asks_no_more(low, high),
        0 <= k,
    ensures
        high.row_hits(p, e, i, k) <= low.row_hits(p, e, i, k),
    decreases k,
{
    if k > 0 {
        lemma_row_hits_gate(low, high, p, e, i, k - 1);
    }
}

proof fn lemma_hits_gate(low: &Comparator, high: &Comparator, p: Pairing, e: MatchEntry, r: int, k: int)
    requires
        asks_no_more(low, high),
        0 <= r,
        0 <= k,
    ensures
        high.hits_by_rows(p, e, r, k) <= low.hits_by_rows(p, e, r, k),
    decreases r,
{
    if r > 0 {
        lemma_hits_gate(low, high, p, e, r - 1, k);
        lemma_row_hits_gate(low, high, p, e, p.src.len() - r, k);
    }
}

/// Lowering a minimum duration takes no entry away: every entry is found
/// under the lower minimum durations as often, at least, as under the higher
/// ones.
pub proof fn lemma_duration_gate_in_number(
    low: &Comparator,
    high: &Comparator,
    p: Pairing,
    e: MatchEntry,
)
    requires
        asks_no_more(low, high),
    ensures
        occurrences(high.matches_of(p), e) <= occurrences(low.matches_of(p), e),
{
    low.lemma_table_scan_occurrences(p, e, p.src.len() as int);
    high.lemma_table_scan_occurrences(p, e, p.src.len() as int);
    lemma_hits_gate(low, high, p, e, p.src.len() as int, p.dst.len() as int);
}

/// A side whose run ends before the opening bound and does not start after
/// the ending bound is an opening and no ending; one that starts after the
/// ending bound and does not end before the opening bound is an ending and no
/// opening; and a run with a side that is neither is not accepted.
pub proof fn lemma_region_classification(
    src: Seq<(u32, u64)>,
    dst: Seq<(u32, u64)>,
    threshold: u32,
    src_info: StreamInfo,
    dst_info: StreamInfo,
    i: int,
    j: int,
    min_opening: u64,
    min_ending: u64,
)
    ensures
        ({
            let e = entry_at(src, dst, threshold, src_info, dst_info, i, j);
            &&& e.src_is_opening <==> e.src_range.1 < src_info.max_opening_time
            &&& e.src_is_ending <==> e.src_range.0 > src_info.min_ending_time
            &&& e.dst_is_opening <==> e.dst_range.1 < dst_info.max_opening_time
            &&& e.dst_is_ending <==> e.dst_range.0 > dst_info.min_ending_time
            &&& !e.src_is_opening && !e.src_is_ending ==> !accepted(e, min_opening, min_ending)
            &&& !e.dst_is_opening && !e.dst_is_ending ==> !accepted(e, min_opening, min_ending)
            &&& e.src_is_opening && !e.src_is_ending && e.dst_is_ending && !e.dst_is_opening
                ==> !accepted(e, min_opening, min_ending)
            &&& e.src_is_ending && !e.src_is_opening && e.dst_is_opening && !e.dst_is_ending
                ==> !accepted(e, min_opening, min_ending)
        }),
{
}

} // verus!
