use needle::audio::driver::video_pairs;
use needle::audio::search::Bucket;
use needle::audio::{Comparator, FrameHashes, SearchResult};
use needle::Error;

const SEC: u64 = 1_000_000_000;
const WINDOW: u64 = 300_000_000;

/// Hashes that differ from each other in two bits at least.
fn hash(i: u32) -> u32 {
    (i << 1) | (i.count_ones() & 1)
}

fn stream(first: u32, count: u32, start: u64) -> Vec<(u32, u64)> {
    (0..count).map(|k| (hash(first + k), start + k as u64 * WINDOW)).collect()
}

fn record(opening: Vec<(u32, u64)>, ending: Vec<(u32, u64)>) -> FrameHashes {
    FrameHashes::new_v1(opening, ending, WINDOW, String::from("00000000000000000000000000000000"))
}

fn comparator(n: usize) -> Comparator {
    Comparator::from_files((0..n).map(|i| format!("video{}.mkv", i)).collect())
        .with_hash_match_threshold(1)
}

#[test]
fn every_pair_is_listed_once() {
    assert_eq!(video_pairs(0), vec![]);
    assert_eq!(video_pairs(1), vec![]);
    assert_eq!(video_pairs(2), vec![(0, 1)]);
    assert_eq!(video_pairs(4), vec![(0, 1), (0, 2), (0, 3), (1, 2), (1, 3), (2, 3)]);
    for v in 0..12usize {
        let pairs = video_pairs(v);
        assert_eq!(pairs.len(), v * v.saturating_sub(1) / 2);
        for i in 0..v {
            for j in i + 1..v {
                assert_eq!(pairs.iter().filter(|&&p| p == (i, j)).count(), 1);
            }
        }
    }
}

#[test]
fn two_identical_short_clips_have_no_opening() {
    // Five seconds of audio: too short for the default minimum of twenty seconds.
    let clips = vec![record(stream(1, 17, 0), vec![]), record(stream(1, 17, 0), vec![])];
    let results = comparator(2).run_with_frame_hashes(&clips, &[false, false]).unwrap();
    let nothing = SearchResult { opening: None, ending: None };
    assert_eq!(results, vec![Some(nothing), Some(nothing)]);
}

#[test]
fn a_clip_and_the_same_clip_shifted_by_four_seconds() {
    let a = stream(1, 17, 0);
    let mut b = stream(1000, 13, 0);
    b.extend(stream(1, 17, 4 * SEC));
    let last = 16 * WINDOW;
    let c = comparator(2).with_min_opening_duration(WINDOW);
    let results = c.run_with_frame_hashes(&[record(a, vec![]), record(b, vec![])], &[false, false]).unwrap();
    assert_eq!(results[0].unwrap().opening, Some((0, last - WINDOW)));
    assert_eq!(results[1].unwrap().opening, Some((4 * SEC, 4 * SEC + last - WINDOW)));
    assert_eq!(results[0].unwrap().ending, None);
}

#[test]
fn three_episodes_share_one_opening() {
    // Each episode has something of its own, then the opening, then something of its own.
    let episode = |own: u32, at: u64| {
        let mut s = stream(own, 10, 0);
        s.extend(stream(1, 100, at));
        s.extend(stream(own + 500, 10, at + 100 * WINDOW));
        record(s, vec![])
    };
    let starts = [3 * SEC, 5 * SEC, 8 * SEC];
    let episodes = vec![episode(2000, starts[0]), episode(3000, starts[1]), episode(4000, starts[2])];
    let c = comparator(3).with_time_padding(SEC);
    let results = c.run_with_frame_hashes(&episodes, &[false, false, false]).unwrap();
    assert_eq!(results.len(), 3);
    for (r, start) in results.iter().zip(starts) {
        let found = r.unwrap();
        assert_eq!(found.opening, Some((start + SEC, start + 99 * WINDOW - SEC - WINDOW)));
        assert_eq!(found.ending, None);
    }
    // Each episode is in two of the three pairs, as the source or as the destination.
    let views = (0..3)
        .map(|v| video_pairs(3).iter().filter(|p| p.0 == v || p.1 == v).count())
        .collect::<Vec<_>>();
    assert_eq!(views, vec![2, 2, 2]);
}

#[test]
fn endings_need_ending_data() {
    let with = record(stream(1, 100, 0), stream(1, 100, 1000 * SEC));
    let without = record(stream(1, 100, 0), vec![]);
    let c = comparator(2).with_include_endings(true);
    assert_eq!(c.find_opening_and_ending(&with, &without).unwrap_err(), Error::FrameHashDataNoEnding);
    assert_eq!(c.find_opening_and_ending(&without, &with).unwrap_err(), Error::FrameHashDataNoEnding);
    assert_eq!(
        c.run_with_frame_hashes(&[with, without], &[false, false]),
        Err(Error::FrameHashDataNoEnding)
    );
    let a = record(stream(1, 100, 0), vec![]);
    let b = record(stream(1, 100, 0), vec![]);
    assert!(comparator(2).run_with_frame_hashes(&[a, b], &[false, false]).is_ok());
}

#[test]
fn openings_and_endings_go_to_their_buckets() {
    let a = record(stream(1, 100, 0), stream(300, 80, 1000 * SEC));
    let b = record(stream(1, 100, 2 * SEC), stream(300, 80, 1100 * SEC));
    let c = comparator(2).with_include_endings(true);
    let info = c.find_opening_and_ending(&a, &b).unwrap();
    assert!(!info.is_empty());
    assert_eq!(info.src_openings.len(), 1);
    assert_eq!(info.dst_openings.len(), 1);
    assert_eq!(info.src_endings.len(), 1);
    assert_eq!(info.dst_endings.len(), 1);
    assert_eq!(info.src_openings[0].src_range, (0, 99 * WINDOW));
    assert_eq!(info.dst_openings[0].dst_range, (2 * SEC, 2 * SEC + 99 * WINDOW));
    assert_eq!(info.src_endings[0].src_range, (1000 * SEC, 1000 * SEC + 79 * WINDOW));
    assert!(info.src_openings[0].src_is_opening && !info.src_openings[0].src_is_ending);
    assert!(info.src_endings[0].dst_is_ending && !info.src_endings[0].dst_is_opening);
    let results = c.run_with_frame_hashes(&[a, b], &[false, false]).unwrap();
    assert_eq!(results[0].unwrap().opening, Some((0, 98 * WINDOW)));
    assert_eq!(results[0].unwrap().ending, Some((1000 * SEC, 1000 * SEC + 78 * WINDOW)));
    assert_eq!(results[1].unwrap().ending, Some((1100 * SEC, 1100 * SEC + 78 * WINDOW)));
    assert_eq!(Bucket::SrcOpenings, Bucket::SrcOpenings);
}

#[test]
fn a_skipped_video_takes_part_and_gets_no_result() {
    let clips = vec![record(stream(1, 100, 0), vec![]), record(stream(1, 100, SEC), vec![])];
    let c = comparator(2);
    let results = c.run_with_frame_hashes(&clips, &[true, false]).unwrap();
    assert_eq!(results[0], None);
    assert_eq!(results[1].unwrap().opening, Some((SEC, SEC + 98 * WINDOW)));
}

#[test]
fn the_same_search_gives_the_same_results() {
    let clips = vec![
        record(stream(1, 100, 0), vec![]),
        record(stream(1, 100, SEC), vec![]),
        record(stream(50, 100, 0), vec![]),
    ];
    let c = comparator(3);
    let first = c.run_with_frame_hashes(&clips, &[false, false, false]);
    let second = c.run_with_frame_hashes(&clips, &[false, false, false]);
    assert_eq!(first, second);
    assert!(first.is_ok());
}

#[test]
fn a_padding_without_room_fails_the_search() {
    let clips = vec![record(stream(1, 100, 0), vec![]), record(stream(1, 100, 0), vec![])];
    let c = comparator(2).with_time_padding(100 * SEC);
    assert_eq!(c.run_with_frame_hashes(&clips, &[false, false]), Err(Error::InvalidTimePadding));
    assert_eq!(c.run_with_frame_hashes(&clips, &[true, true]), Ok(vec![None, None]));
}

#[test]
fn the_threshold_counts_bits_of_a_hash() {
    assert_eq!(comparator(2).with_hash_match_threshold(32).validate(), Ok(()));
    assert_eq!(
        comparator(2).with_hash_match_threshold(33).validate(),
        Err(Error::InvalidHashMatchThreshold)
    );
}

#[test]
fn a_run_reads_the_frame_hashes_of_every_video() {
    let a = record(stream(1, 100, 0), vec![]);
    let b = record(stream(1, 100, SEC), vec![]);
    let c = comparator(2);
    let files = vec![Some(a.to_bytes()), Some(b.to_bytes())];
    let direct = c.run_with_frame_hashes(&[a, b], &[false, false]).unwrap();
    assert_eq!(c.run(&files, &[false, false]), Ok(direct.clone()));
    assert_eq!(direct[1].unwrap().opening, Some((SEC, SEC + 98 * WINDOW)));

    let missing = vec![files[0].clone(), None];
    assert_eq!(c.run(&missing, &[false, false]), Err(Error::FrameHashDataNotFound));
    let mut wrong = files.clone();
    wrong[0].as_mut().unwrap()[0] = 0;
    assert_eq!(c.run(&wrong, &[false, false]), Err(Error::FrameHashDataInvalidVersion));
    let cut = vec![files[0].clone(), Some(files[1].as_ref().unwrap()[..20].to_vec())];
    assert_eq!(c.run(&cut, &[false, false]), Err(Error::FrameHashDataCorrupt));
    // The first file that is wrong decides.
    let both = vec![None, Some(vec![0, 0, 0, 0])];
    assert_eq!(c.run(&both, &[false, false]), Err(Error::FrameHashDataNotFound));
}

#[test]
fn pairs_are_searched_before_results_are_chosen() {
    let clips = vec![
        record(stream(1, 100, 0), vec![]),
        record(stream(1, 100, SEC), vec![]),
        record(stream(1, 100, 2 * SEC), vec![]),
    ];
    let c = comparator(3);
    let found = c.search_pairs(&clips).unwrap();
    assert_eq!(found.count, 3);
    assert_eq!(found.pairs, vec![(0, 1), (0, 2), (1, 2)]);
    assert_eq!(found.infos.len(), 3);
    for skip in [[false, false, false], [true, false, true], [true, true, true]] {
        assert_eq!(c.choose_results(&found, &skip), c.run_with_frame_hashes(&clips, &skip));
    }
    let without = vec![record(stream(1, 100, 0), vec![]), record(stream(1, 100, 0), stream(1, 9, SEC))];
    let e = comparator(2).with_include_endings(true);
    assert_eq!(e.search_pairs(&without).err(), Some(Error::FrameHashDataNoEnding));
}
