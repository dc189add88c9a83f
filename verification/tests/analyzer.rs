use needle::audio::analyzer::{
    cache_hit, fingerprinter_count, from_timestamp, packet_action, push_fingerprint, rebase,
    sample_bytes_len, seek_window, str_eq, stream_duration_raw, to_timestamp, Fraction, PacketAction,
    SeekWindow, TimeBase,
};
use needle::audio::codec::is_monotonic_stream;
use needle::audio::simhash::simhash32;
use needle::audio::task::{AnalysisAction, AnalysisState, AnalysisTask};
use needle::audio::{Analyzer, FrameHashes};
use needle::Error;

const SEC: u64 = 1_000_000_000;

fn analyzer() -> Analyzer {
    Analyzer::from_files(vec![String::from("a.mkv")], false, false)
}

fn cached(md5: &str) -> FrameHashes {
    FrameHashes::new_v1(vec![(9, SEC)], vec![], 3 * SEC, String::from(md5))
}

#[test]
fn a_fraction_of_a_duration() {
    assert_eq!(Fraction { millionths: 500_000 }.of(10 * SEC), 5 * SEC);
    assert_eq!(Fraction { millionths: 250_000 }.complement().of(1000 * SEC), 750 * SEC);
    assert_eq!(Fraction { millionths: 333_333 }.of(3), 0);
    assert_eq!(Fraction { millionths: 1_000_000 }.of(u64::MAX), u64::MAX);
}

#[test]
fn times_in_units_of_a_time_base() {
    let millis = TimeBase { numerator: 1, denominator: 1000 };
    assert_eq!(to_timestamp(millis, 1500), Some(1_500_000_000));
    assert_eq!(to_timestamp(millis, -1), None);
    assert_eq!(to_timestamp(TimeBase { numerator: 1, denominator: 0 }, 5), None);
    assert_eq!(to_timestamp(TimeBase { numerator: 1000, denominator: 1 }, i64::MAX), None);
    assert_eq!(to_timestamp(TimeBase { numerator: 1, denominator: 90_000 }, 90_001), Some(1_000_011_111));
    assert_eq!(from_timestamp(millis, 1_500_000_000), Some(1500));
    assert_eq!(from_timestamp(TimeBase { numerator: 0, denominator: 1 }, 5), None);
    assert_eq!(from_timestamp(TimeBase { numerator: 1, denominator: 90_000 }, 2 * SEC), Some(180_000));
}

#[test]
fn the_duration_comes_from_the_stream_or_from_the_container() {
    assert_eq!(stream_duration_raw(5000, 77), Some(5000));
    assert_eq!(stream_duration_raw(0, 77), Some(0));
    assert_eq!(stream_duration_raw(-1, 1_234_567), Some(1234));
    assert_eq!(stream_duration_raw(-1, 0), None);
    assert_eq!(stream_duration_raw(i64::MIN, -5), None);
}

#[test]
fn fingerprinters_cover_the_hash_duration() {
    assert_eq!(fingerprinter_count(3 * SEC, 300_000_000), 10);
    assert_eq!(fingerprinter_count(3 * SEC, SEC), 3);
    assert_eq!(fingerprinter_count(3 * SEC + 1, SEC), 4);
    assert_eq!(fingerprinter_count(0, SEC), 0);
    assert_eq!(fingerprinter_count(u64::MAX, 1), u64::MAX);
}

#[test]
fn packets_before_time_zero_are_passed_over_and_the_window_ends_the_reading() {
    assert_eq!(packet_action(5, Some(10)), PacketAction::Decode);
    assert_eq!(packet_action(0, Some(10)), PacketAction::Skip);
    assert_eq!(packet_action(-7, None), PacketAction::Skip);
    assert_eq!(packet_action(10, Some(10)), PacketAction::Stop);
    assert_eq!(packet_action(11, Some(10)), PacketAction::Stop);
    assert_eq!(packet_action(-7, Some(-8)), PacketAction::Stop);
    assert_eq!(packet_action(i64::MAX, None), PacketAction::Decode);
}

#[test]
fn a_seek_needs_a_second_to_either_side() {
    assert_eq!(
        seek_window(10 * SEC, 20 * SEC),
        Ok(SeekWindow { target: 10 * SEC, min: 9 * SEC, max: 11 * SEC })
    );
    assert_eq!(seek_window(SEC - 1, 20 * SEC), Err(Error::InvalidSeekTimestamp));
    assert_eq!(seek_window(19 * SEC, 20 * SEC), Err(Error::InvalidSeekTimestamp));
    assert_eq!(seek_window(u64::MAX, u64::MAX), Err(Error::InvalidSeekTimestamp));
    assert!(seek_window(19 * SEC - 1, 20 * SEC).is_ok());
}

#[test]
fn samples_take_two_bytes_for_each_channel() {
    assert_eq!(sample_bytes_len(1024, 2), Some(4096));
    assert_eq!(sample_bytes_len(0, 2), Some(0));
    assert_eq!(sample_bytes_len(usize::MAX, 2), None);
}

#[test]
fn fingerprints_become_a_stream_whose_timestamps_never_decrease() {
    let mut s = Vec::new();
    assert_eq!(push_fingerprint(&mut s, &[1, 3, 7], 5), Ok(()));
    assert_eq!(push_fingerprint(&mut s, &[8], 5), Ok(()));
    assert_eq!(push_fingerprint(&mut s, &[9], 4), Err(Error::DecodeError));
    assert_eq!(push_fingerprint(&mut s, &[], 6), Ok(()));
    assert_eq!(s, vec![(simhash32(&[1, 3, 7]), 5), (8, 5), (0, 6)]);
    assert!(is_monotonic_stream(&s));
}

#[test]
fn a_stream_is_moved_as_a_whole() {
    assert_eq!(rebase(vec![(1, 0), (2, 5)], 100), Some(vec![(1, 100), (2, 105)]));
    assert_eq!(rebase(vec![], u64::MAX), Some(vec![]));
    assert_eq!(rebase(vec![(1, 0), (2, 5)], u64::MAX - 4), None);
    assert_eq!(rebase(vec![(1, 0), (2, 5)], u64::MAX - 5), Some(vec![(1, u64::MAX - 5), (2, u64::MAX)]));
}

#[test]
fn strings_are_compared_by_their_characters() {
    assert!(str_eq("abc", "abc"));
    assert!(str_eq("", ""));
    assert!(!str_eq("abc", "abd"));
    assert!(!str_eq("abc", "ab"));
}

#[test]
fn frame_hashes_on_disk_count_where_the_checksum_is_the_same() {
    assert!(cache_hit(false, &Some(cached("abc")), "abc"));
    assert!(!cache_hit(true, &Some(cached("abc")), "abc"));
    assert!(!cache_hit(false, &Some(cached("abc")), "abd"));
    assert!(!cache_hit(false, &None, "abc"));
}

#[test]
fn a_run_needs_videos_and_settings_in_range() {
    let none = Analyzer::from_files(vec![], false, false);
    assert_eq!(none.run(SEC, SEC, false).unwrap_err(), Error::AnalyzerMissingPaths);
    assert_eq!(analyzer().run(0, SEC, false).unwrap_err(), Error::InvalidHashPeriod);
    assert_eq!(analyzer().run(SEC, 0, false).unwrap_err(), Error::InvalidHashDuration);
    let whole = analyzer().with_opening_search_percentage(Fraction { millionths: 1_000_000 });
    assert_eq!(whole.validate(SEC, SEC), Err(Error::InvalidSearchPercentage));
    let nothing = analyzer().with_ending_search_percentage(Fraction { millionths: 0 });
    assert_eq!(nothing.run(SEC, SEC, false).unwrap_err(), Error::InvalidSearchPercentage);
    let two = Analyzer::from_files(vec![String::from("a"), String::from("b")], true, true);
    assert_eq!(two.videos().len(), 2);
    let tasks = two.with_include_endings(true).run(300_000_000, 3 * SEC, true).unwrap();
    assert_eq!(tasks.len(), 2);
    for t in &tasks {
        assert_eq!(t.state, AnalysisState::Idle);
        assert!(t.force && t.persist && t.include_endings);
        assert_eq!((t.hash_period, t.hash_duration), (300_000_000, 3 * SEC));
    }
}

#[test]
fn an_analysis_without_endings() {
    let mut t = AnalysisTask::new(&analyzer(), 300_000_000, 3 * SEC, false);
    assert_eq!(t.on_provenance(String::from("abc"), None), AnalysisAction::Open);
    assert_eq!(t.state, AnalysisState::ProvenanceChecked);
    assert_eq!(t.on_opened(100 * SEC), AnalysisAction::Decode { until: Some(50 * SEC) });
    assert_eq!(t.state, AnalysisState::DecodingOpening);
    assert_eq!(t.on_fingerprint(&[5], 0), AnalysisAction::Continue);
    assert_eq!(t.on_fingerprint(&[6], 300_000_000), AnalysisAction::Continue);
    assert_eq!(t.on_window_done(), AnalysisAction::Finish);
    assert_eq!(t.state, AnalysisState::Done);
    assert!(!t.from_cache);
    let r = t.result.unwrap();
    assert_eq!(r.opening_data(), &[(5, 0), (6, 300_000_000)]);
    assert!(r.ending_data().is_empty());
    assert_eq!(r.hash_duration(), 3 * SEC);
    assert_eq!(r.md5(), "abc");
    assert!(is_monotonic_stream(r.opening_data()));
}

#[test]
fn an_analysis_with_endings_that_is_written() {
    let a = analyzer().with_include_endings(true);
    let mut t = AnalysisTask::new(&a, 300_000_000, 3 * SEC, true);
    assert_eq!(t.on_provenance(String::from("abc"), Some(cached("other"))), AnalysisAction::Open);
    assert_eq!(t.on_opened(100 * SEC), AnalysisAction::Decode { until: Some(50 * SEC) });
    assert_eq!(t.on_fingerprint(&[5], 0), AnalysisAction::Continue);
    assert_eq!(
        t.on_window_done(),
        AnalysisAction::Seek(SeekWindow { target: 75 * SEC, min: 74 * SEC, max: 76 * SEC })
    );
    assert_eq!(t.state, AnalysisState::SeekingEnding);
    assert_eq!(t.on_sought(), AnalysisAction::Decode { until: None });
    assert_eq!(t.state, AnalysisState::DecodingEnding);
    assert_eq!(t.on_fingerprint(&[7], 0), AnalysisAction::Continue);
    assert_eq!(t.on_fingerprint(&[8], SEC), AnalysisAction::Continue);
    assert_eq!(t.on_window_done(), AnalysisAction::Persist);
    assert_eq!(t.state, AnalysisState::Persisting);
    assert_eq!(t.result.as_ref().unwrap().ending_data(), &[(7, 75 * SEC), (8, 76 * SEC)]);
    assert_eq!(t.on_persisted(), AnalysisAction::Finish);
    assert_eq!(t.state, AnalysisState::Done);
    let r = t.result.unwrap();
    assert!(is_monotonic_stream(r.opening_data()) && is_monotonic_stream(r.ending_data()));
}

#[test]
fn frame_hashes_of_the_same_video_are_used_again() {
    let mut t = AnalysisTask::new(&analyzer(), 300_000_000, 3 * SEC, true);
    assert_eq!(t.on_provenance(String::from("abc"), Some(cached("abc"))), AnalysisAction::Finish);
    assert_eq!(t.state, AnalysisState::Done);
    assert!(t.from_cache);
    assert_eq!(t.result.unwrap().opening_data(), &[(9, SEC)]);
}

#[test]
fn frame_hashes_of_another_video_or_a_forced_analysis_decode_again() {
    let mut t = AnalysisTask::new(&analyzer(), 300_000_000, 3 * SEC, true);
    assert_eq!(t.on_provenance(String::from("abc"), Some(cached("xyz"))), AnalysisAction::Open);
    assert!(t.result.is_none());
    let forced = analyzer().with_force(true);
    let mut t = AnalysisTask::new(&forced, 300_000_000, 3 * SEC, true);
    assert_eq!(t.on_provenance(String::from("abc"), Some(cached("abc"))), AnalysisAction::Open);
    assert_eq!(t.state, AnalysisState::ProvenanceChecked);
}

#[test]
fn an_analysis_can_fail() {
    let a = analyzer().with_include_endings(true);
    let mut t = AnalysisTask::new(&a, 300_000_000, 3 * SEC, false);
    t.on_provenance(String::from("abc"), None);
    t.on_opened(2 * SEC);
    // The ending region starts at 1.5 s: there is no second before the end.
    assert_eq!(t.on_window_done(), AnalysisAction::Fail(Error::InvalidSeekTimestamp));
    assert_eq!(t.state, AnalysisState::Failed);

    let mut t = AnalysisTask::new(&analyzer(), 300_000_000, 3 * SEC, false);
    t.on_provenance(String::from("abc"), None);
    t.on_opened(100 * SEC);
    assert_eq!(t.on_fingerprint(&[5], 10), AnalysisAction::Continue);
    assert_eq!(t.on_fingerprint(&[5], 9), AnalysisAction::Fail(Error::DecodeError));
    assert_eq!(t.state, AnalysisState::Failed);

    let mut t = AnalysisTask::new(&analyzer(), 300_000_000, 3 * SEC, false);
    t.on_provenance(String::from("abc"), None);
    assert_eq!(t.on_failure(Error::IOError), AnalysisAction::Fail(Error::IOError));
    assert_eq!(t.state, AnalysisState::Failed);
}

#[test]
fn fingerprints_outside_the_region_are_dropped() {
    // The opening region of a video of 100 s ends at 50 s.
    let a = analyzer().with_include_endings(true);
    let mut t = AnalysisTask::new(&a, 300_000_000, 3 * SEC, false);
    t.on_provenance(String::from("abc"), None);
    t.on_opened(100 * SEC);
    assert_eq!(t.on_fingerprint(&[5], 50 * SEC - 1), AnalysisAction::Continue);
    assert_eq!(t.on_fingerprint(&[6], 50 * SEC), AnalysisAction::Continue);
    assert_eq!(t.on_fingerprint(&[7], u64::MAX), AnalysisAction::Continue);
    assert_eq!(t.opening, vec![(5, 50 * SEC - 1)]);
    assert_eq!(t.state, AnalysisState::DecodingOpening);
    // The ending region starts at 75 s and has 25 s to the end of the stream.
    assert!(matches!(t.on_window_done(), AnalysisAction::Seek(_)));
    t.on_sought();
    assert_eq!(t.on_fingerprint(&[8], 25 * SEC), AnalysisAction::Continue);
    assert_eq!(t.on_fingerprint(&[9], 25 * SEC + 1), AnalysisAction::Continue);
    assert_eq!(t.ending, vec![(8, 25 * SEC)]);
    assert_eq!(t.on_window_done(), AnalysisAction::Finish);
    let r = t.result.unwrap();
    assert_eq!(r.opening_data(), &[(5, 50 * SEC - 1)]);
    assert_eq!(r.ending_data(), &[(8, 100 * SEC)]);
}

#[test]
fn the_record_is_that_of_the_run() {
    let a = analyzer().with_opening_search_percentage(Fraction { millionths: 100_000 });
    let mut t = AnalysisTask::new(&a, 1, 7 * SEC, true);
    t.on_provenance(String::from("0123456789abcdef0123456789abcdef"), Some(cached("other")));
    t.on_opened(1000 * SEC);
    assert_eq!((t.hash_period, t.hash_duration, t.persist, t.include_endings), (1, 7 * SEC, true, false));
    assert_eq!(t.md5, "0123456789abcdef0123456789abcdef");
    t.on_fingerprint(&[1], SEC);
    assert_eq!(t.on_window_done(), AnalysisAction::Persist);
    assert_eq!(t.md5, "0123456789abcdef0123456789abcdef");
    let r = t.result.as_ref().unwrap();
    assert_eq!(r.md5(), "0123456789abcdef0123456789abcdef");
    assert_eq!(r.hash_duration(), 7 * SEC);
    assert!(r.ending_data().is_empty());
    assert!(r.is_version_valid());
    assert!(r.opening_data().iter().all(|s| s.1 < 100 * SEC));
    // Without `persist` nothing is to be written.
    let mut t = AnalysisTask::new(&a, 1, 7 * SEC, false);
    t.on_provenance(String::from("abc"), None);
    t.on_opened(1000 * SEC);
    assert_eq!(t.on_window_done(), AnalysisAction::Finish);
    assert_eq!(t.state, AnalysisState::Done);
}
