use needle::audio::matcher::{is_accepted, StreamInfo};
use needle::audio::simhash::simhash32;
use needle::audio::{Comparator, MatchEntry};

const SEC: u64 = 1_000_000_000;

fn everything_opens(hash_window: u64) -> StreamInfo {
    StreamInfo { max_opening_time: u64::MAX, min_ending_time: u64::MAX, hash_window }
}

fn exact(min_opening: u64, min_ending: u64) -> Comparator {
    Comparator::from_files(vec![])
        .with_hash_match_threshold(0)
        .with_min_opening_duration(min_opening)
        .with_min_ending_duration(min_ending)
}

fn swapped(e: &MatchEntry) -> MatchEntry {
    MatchEntry {
        run_length: e.run_length,
        src_range: e.dst_range,
        dst_range: e.src_range,
        src_summary_hash: e.dst_summary_hash,
        dst_summary_hash: e.src_summary_hash,
        src_is_opening: e.dst_is_opening,
        src_is_ending: e.dst_is_ending,
        dst_is_opening: e.src_is_opening,
        dst_is_ending: e.src_is_ending,
        src_hash_window: e.dst_hash_window,
        dst_hash_window: e.src_hash_window,
    }
}

#[test]
fn one_run_of_three_in_small_streams() {
    let (a, b, c, d, x, y) = (1u32, 2, 4, 8, 16, 32);
    let src = [(a, 10 * SEC), (b, 11 * SEC), (c, 12 * SEC), (d, 13 * SEC)];
    let dst = [(x, 20 * SEC), (a, 21 * SEC), (b, 22 * SEC), (c, 23 * SEC), (y, 24 * SEC)];
    let found = exact(0, 0).longest_common_hash_match(
        &src,
        &dst,
        everything_opens(3 * SEC),
        everything_opens(4 * SEC),
    );
    assert_eq!(found.len(), 1);
    let e = found[0];
    assert_eq!(e.run_length, 3);
    assert_eq!(e.src_range, (src[0].1, src[2].1));
    assert_eq!(e.dst_range, (dst[1].1, dst[3].1));
    assert_eq!(e.src_summary_hash, simhash32(&[a, b, c]));
    assert_eq!(e.dst_summary_hash, simhash32(&[a, b, c]));
    assert!(e.src_is_opening && e.dst_is_opening);
    assert!(!e.src_is_ending && !e.dst_is_ending);
    assert_eq!(e.src_hash_window, 3 * SEC);
    assert_eq!(e.dst_hash_window, 4 * SEC);
}

#[test]
fn empty_streams_share_nothing() {
    let s = [(1u32, 0u64), (2, SEC)];
    let c = exact(0, 0);
    assert!(c.longest_common_hash_match(&[], &s, everything_opens(0), everything_opens(0)).is_empty());
    assert!(c.longest_common_hash_match(&s, &[], everything_opens(0), everything_opens(0)).is_empty());
    assert!(c.longest_common_hash_match(&[], &[], everything_opens(0), everything_opens(0)).is_empty());
}

#[test]
fn identical_streams_give_one_long_run_and_no_part_of_it() {
    let s: Vec<(u32, u64)> = (0..20u32).map(|i| (i * 2654435761u32.wrapping_add(i), i as u64 * SEC)).collect();
    let found = exact(5 * SEC, 5 * SEC).longest_common_hash_match(
        &s,
        &s,
        everything_opens(0),
        everything_opens(0),
    );
    assert_eq!(found.len(), 1);
    assert_eq!(found[0].run_length, 20);
    assert_eq!(found[0].src_range, (0, 19 * SEC));
    assert_eq!(found[0].dst_range, (0, 19 * SEC));
}

#[test]
fn runs_come_out_from_the_last_position_backwards() {
    // Two runs: hashes 1,2 at the start of both, hashes 7,8 at the end of both.
    let src = [(1u32, 0), (2, SEC), (100, 2 * SEC), (7, 3 * SEC), (8, 4 * SEC)];
    let dst = [(1u32, 0), (2, SEC), (200, 2 * SEC), (7, 3 * SEC), (8, 4 * SEC)];
    let found =
        exact(0, 0).longest_common_hash_match(&src, &dst, everything_opens(0), everything_opens(0));
    assert_eq!(found.len(), 2);
    assert_eq!(found[0].src_range, (3 * SEC, 4 * SEC));
    assert_eq!(found[1].src_range, (0, SEC));
}

#[test]
fn threshold_allows_hashes_that_differ_in_few_bits() {
    let src = [(0b0000u32, 0), (0b1111, SEC)];
    let dst = [(0b0001u32, 0), (0b1101, SEC)];
    let at = |t: u32| {
        Comparator::from_files(vec![])
            .with_hash_match_threshold(t)
            .with_min_opening_duration(SEC)
            .longest_common_hash_match(&src, &dst, everything_opens(0), everything_opens(0))
    };
    assert!(at(0).is_empty());
    let found = at(1);
    assert_eq!(found.len(), 1);
    assert_eq!(found[0].run_length, 2);
}

#[test]
fn a_run_is_an_opening_or_an_ending_by_where_it_lies() {
    let s: Vec<(u32, u64)> = (0..10u32).map(|i| (1 << i, i as u64 * SEC)).collect();
    let c = exact(SEC, SEC);
    let whole = |max_opening_time, min_ending_time| {
        c.longest_common_hash_match(
            &s,
            &s,
            StreamInfo { max_opening_time, min_ending_time, hash_window: 0 },
            StreamInfo { max_opening_time, min_ending_time, hash_window: 0 },
        )
    };
    // The run spans 0 s to 9 s.
    let opening = whole(10 * SEC, 20 * SEC);
    assert_eq!(opening.len(), 1);
    assert!(opening[0].src_is_opening && !opening[0].src_is_ending);
    assert!(opening[0].dst_is_opening && !opening[0].dst_is_ending);
    // It starts at 0 s, so it lies behind no ending bound but is an ending where the bound is missing.
    let straddling = whole(9 * SEC, 0);
    assert!(straddling.is_empty());
    let tail: Vec<(u32, u64)> = s.iter().map(|&(h, t)| (h, t + 100 * SEC)).collect();
    let ending = c.longest_common_hash_match(
        &tail,
        &tail,
        StreamInfo { max_opening_time: 50 * SEC, min_ending_time: 99 * SEC, hash_window: 0 },
        StreamInfo { max_opening_time: 50 * SEC, min_ending_time: 99 * SEC, hash_window: 0 },
    );
    assert_eq!(ending.len(), 1);
    assert!(!ending[0].src_is_opening && ending[0].src_is_ending);
    assert!(!ending[0].dst_is_opening && ending[0].dst_is_ending);
}

#[test]
fn an_opening_against_an_ending_is_dropped() {
    let src: Vec<(u32, u64)> = (0..5u32).map(|i| (1 << i, i as u64 * SEC)).collect();
    let dst: Vec<(u32, u64)> = (0..5u32).map(|i| (1 << i, (100 + i as u64) * SEC)).collect();
    let found = exact(0, 0).longest_common_hash_match(
        &src,
        &dst,
        StreamInfo { max_opening_time: 50 * SEC, min_ending_time: 60 * SEC, hash_window: 0 },
        StreamInfo { max_opening_time: 50 * SEC, min_ending_time: 60 * SEC, hash_window: 0 },
    );
    assert!(found.is_empty());
}

#[test]
fn a_lower_minimum_duration_only_adds_runs() {
    let src = [(1u32, 0), (2, SEC), (3, 2 * SEC), (99, 3 * SEC), (5, 4 * SEC), (6, 5 * SEC)];
    let dst = [(1u32, 0), (2, SEC), (3, 2 * SEC), (77, 3 * SEC), (5, 4 * SEC), (6, 5 * SEC)];
    let at = |min: u64| {
        exact(min, min).longest_common_hash_match(&src, &dst, everything_opens(0), everything_opens(0))
    };
    let high = at(2 * SEC);
    let mid = at(SEC);
    let low = at(0);
    assert_eq!(high.len(), 1);
    assert_eq!(mid.len(), 2);
    assert_eq!(low.len(), 2);
    assert!(at(3 * SEC).is_empty());
    for e in &high {
        assert!(mid.contains(e));
    }
    for e in &mid {
        assert!(low.contains(e));
    }
}

#[test]
fn exchanging_the_streams_exchanges_the_sides() {
    let src = [(1u32, 0), (2, SEC), (3, 2 * SEC), (4, 3 * SEC)];
    let dst = [(9u32, 5 * SEC), (2, 6 * SEC), (3, 7 * SEC), (1, 8 * SEC), (2, 9 * SEC), (3, 10 * SEC)];
    let c = exact(0, 0);
    let si = StreamInfo { max_opening_time: 4 * SEC, min_ending_time: 9 * SEC, hash_window: SEC };
    let di = StreamInfo { max_opening_time: 8 * SEC, min_ending_time: 9 * SEC, hash_window: 2 * SEC };
    let forward = c.longest_common_hash_match(&src, &dst, si, di);
    let backward = c.longest_common_hash_match(&dst, &src, di, si);
    assert!(!forward.is_empty());
    assert_eq!(forward.len(), backward.len());
    for e in &forward {
        assert!(backward.contains(&swapped(e)));
    }
    for e in &backward {
        assert!(forward.contains(&swapped(e)));
    }
}

#[test]
fn acceptance_needs_both_sides_long_enough() {
    let e = MatchEntry {
        run_length: 3,
        src_range: (0, 10 * SEC),
        dst_range: (0, 4 * SEC),
        src_summary_hash: 0,
        dst_summary_hash: 0,
        src_is_opening: true,
        src_is_ending: false,
        dst_is_opening: true,
        dst_is_ending: false,
        src_hash_window: 0,
        dst_hash_window: 0,
    };
    assert!(is_accepted(&e, 4 * SEC, 0));
    assert!(!is_accepted(&e, 5 * SEC, 0));
    let neither = MatchEntry { dst_is_opening: false, ..e };
    assert!(!is_accepted(&neither, 0, 0));
}

#[test]
fn a_clip_behind_other_audio_is_found_whole() {
    let clip: Vec<(u32, u64)> = (0..20u64).map(|k| (1u32 << (k % 32), k * SEC)).collect();
    let mut later: Vec<(u32, u64)> = (0..7u64).map(|k| (0u32, k * SEC)).collect();
    later.extend(clip.iter().map(|&(h, t)| (h, t + 7 * SEC)));
    let found = exact(0, 0).longest_common_hash_match(
        &clip,
        &later,
        everything_opens(3 * SEC),
        everything_opens(3 * SEC),
    );
    assert_eq!(found.len(), 1);
    let e = found[0];
    assert_eq!(e.run_length, 20);
    assert_eq!(e.src_range, (0, 19 * SEC));
    assert_eq!(e.dst_range, (7 * SEC, 26 * SEC));
    assert_eq!(e.dst_range.0 - e.src_range.0, 7 * SEC);
    assert_eq!(e.dst_range.1 - e.dst_range.0, e.src_range.1 - e.src_range.0);
}
