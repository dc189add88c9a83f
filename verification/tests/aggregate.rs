use needle::audio::aggregate::{best_candidate, candidate_weight, candidates, count_neighbors, Candidate};
use needle::audio::{Comparator, MatchEntry, OpeningAndEndingInfo, SearchResult};
use needle::Error;

const SEC: u64 = 1_000_000_000;

fn entry(src_range: (u64, u64), src_hash: u32, window: u64) -> MatchEntry {
    MatchEntry {
        run_length: 1,
        src_range,
        dst_range: (src_range.0 + 1000 * SEC, src_range.1 + 1000 * SEC),
        src_summary_hash: src_hash,
        dst_summary_hash: !src_hash,
        src_is_opening: true,
        src_is_ending: false,
        dst_is_opening: true,
        dst_is_ending: false,
        src_hash_window: window,
        dst_hash_window: 2 * window,
    }
}

fn info(openings: Vec<MatchEntry>, endings: Vec<MatchEntry>) -> OpeningAndEndingInfo {
    OpeningAndEndingInfo {
        src_openings: openings.clone(),
        dst_openings: openings,
        src_endings: endings.clone(),
        dst_endings: endings,
    }
}

fn opening(range: (u64, u64), summary_hash: u32) -> Candidate {
    Candidate { range, hash_window: 0, summary_hash, is_opening: true }
}

#[test]
fn no_pairs_give_no_result() {
    let c = Comparator::from_files(vec![]).with_include_endings(true);
    assert_eq!(c.find_best_match(&[]), SearchResult { opening: None, ending: None });
    let empty = info(vec![], vec![]);
    assert_eq!(c.find_best_match(&[(&empty, true)]), SearchResult::default());
}

#[test]
fn padding_moves_the_start_forward_and_the_end_back_by_padding_and_hash_window() {
    let c = Comparator::from_files(vec![]).with_time_padding(SEC);
    let i = info(vec![entry((10 * SEC, 40 * SEC), 7, 3 * SEC)], vec![]);
    let r = c.find_best_match(&[(&i, true)]);
    assert_eq!(r.opening, Some((11 * SEC, 36 * SEC)));
    assert_eq!(r.ending, None);
}

#[test]
fn the_destination_side_is_taken_for_a_destination() {
    let c = Comparator::from_files(vec![]);
    let i = info(vec![entry((10 * SEC, 40 * SEC), 7, 3 * SEC)], vec![]);
    let r = c.find_best_match(&[(&i, false)]);
    assert_eq!(r.opening, Some((1010 * SEC, 1034 * SEC)));
}

#[test]
fn endings_are_chosen_only_where_asked_for() {
    let i = info(vec![], vec![entry((100 * SEC, 130 * SEC), 7, SEC)]);
    let without = Comparator::from_files(vec![]);
    assert_eq!(without.find_best_match(&[(&i, true)]), SearchResult { opening: None, ending: None });
    let with = Comparator::from_files(vec![]).with_include_endings(true);
    assert_eq!(
        with.find_best_match(&[(&i, true)]),
        SearchResult { opening: None, ending: Some((100 * SEC, 129 * SEC)) }
    );
}

#[test]
fn candidates_come_pair_after_pair_openings_first() {
    let a = info(vec![entry((0, SEC), 1, 0)], vec![entry((2 * SEC, 3 * SEC), 2, 0)]);
    let b = info(vec![entry((4 * SEC, 5 * SEC), 3, 0)], vec![]);
    let flat = candidates(&[(&a, true), (&b, false)]);
    assert_eq!(
        flat,
        vec![
            Candidate { range: (0, SEC), hash_window: 0, summary_hash: 1, is_opening: true },
            Candidate { range: (2 * SEC, 3 * SEC), hash_window: 0, summary_hash: 2, is_opening: false },
            Candidate { range: (1004 * SEC, 1005 * SEC), hash_window: 0, summary_hash: !3, is_opening: true },
        ]
    );
}

#[test]
fn neighbours_are_hashes_closer_than_one_and_a_half_thresholds() {
    let c = vec![opening((0, 0), 0b0000), opening((0, 0), 0b0111), opening((0, 0), 0b1111)];
    // Threshold 2: fewer than 3 differing bits. Every candidate is its own neighbour.
    assert_eq!(count_neighbors(&c, 0, 2), 1);
    assert_eq!(count_neighbors(&c, 1, 2), 2);
    assert_eq!(count_neighbors(&c, 2, 2), 2);
    // Threshold 3: fewer than 4 differing bits.
    assert_eq!(count_neighbors(&c, 0, 3), 2);
    // Threshold 0: no candidate has a neighbour, not even itself.
    assert_eq!(count_neighbors(&c, 0, 0), 0);
}

#[test]
fn weight_is_three_parts_neighbours_and_seven_parts_seconds() {
    let c = vec![opening((0, 30 * SEC), 0), opening((0, 25 * SEC), u32::MAX)];
    assert_eq!(candidate_weight(&c, 0, 0), 210 * SEC as u128);
    assert_eq!(candidate_weight(&c, 1, 0), 175 * SEC as u128);
    assert_eq!(candidate_weight(&c, 0, 10), 213 * SEC as u128);
}

#[test]
fn thirty_seconds_alone_outweigh_twenty_five_seconds_with_five_neighbours() {
    // 0.3 * 1 + 0.7 * 30 = 21.3 against 0.3 * 6 + 0.7 * 25 = 19.3.
    let mut c = vec![opening((0, 30 * SEC), 0)];
    for _ in 0..6 {
        c.push(opening((100 * SEC, 125 * SEC), u32::MAX));
    }
    assert_eq!(count_neighbors(&c, 0, 10), 1);
    assert_eq!(count_neighbors(&c, 1, 10), 6);
    assert_eq!(best_candidate(&c, true, 10), Some(0));
}

#[test]
fn recurrence_decides_between_runs_of_nearly_equal_length() {
    // 0.3 * 1 + 0.7 * 25 = 17.8 against 0.3 * 6 + 0.7 * 24 = 18.6.
    let mut c = vec![opening((0, 25 * SEC), 0)];
    for _ in 0..6 {
        c.push(opening((100 * SEC, 124 * SEC), u32::MAX));
    }
    assert_eq!(best_candidate(&c, true, 10), Some(1));
    let lone = info(vec![entry((0, 25 * SEC), 0, 0)], vec![]);
    let common = info(vec![entry((100 * SEC, 124 * SEC), u32::MAX, 0)], vec![]);
    let matches: Vec<(&OpeningAndEndingInfo, bool)> =
        vec![(&lone, true), (&common, true), (&common, true), (&common, true), (&common, true), (&common, true), (&common, true)];
    let r = Comparator::from_files(vec![]).find_best_match(&matches);
    assert_eq!(r.opening, Some((100 * SEC, 124 * SEC)));
}

#[test]
fn the_earliest_of_equal_candidates_wins() {
    let c = vec![opening((0, 10 * SEC), 1), opening((50 * SEC, 60 * SEC), 1), opening((70 * SEC, 80 * SEC), 1)];
    assert_eq!(best_candidate(&c, true, 10), Some(0));
    assert_eq!(best_candidate(&c, false, 10), None);
}

#[test]
fn a_padding_that_leaves_no_room_is_refused() {
    let i = info(vec![entry((0, 2 * SEC), 7, SEC)], vec![]);
    let fits = Comparator::from_files(vec![]).with_time_padding(SEC);
    assert_eq!(fits.try_find_best_match(&[(&i, true)]), Ok(SearchResult { opening: Some((SEC, 0)), ending: None }));
    let too_much = Comparator::from_files(vec![]).with_time_padding(SEC + 1);
    assert_eq!(too_much.try_find_best_match(&[(&i, true)]), Err(Error::InvalidTimePadding));
    let end_of_time = info(vec![entry((u64::MAX - 5, u64::MAX), 7, 0)], vec![]);
    let c = Comparator::from_files(vec![]).with_time_padding(6);
    assert_eq!(c.try_find_best_match(&[(&end_of_time, true)]), Err(Error::InvalidTimePadding));
}
