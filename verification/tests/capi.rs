use needle::audio::backend::MediaInfo;
use needle::audio::{Analyzer, Comparator, SearchResult};
use needle::capi::{
    needle_audio_comparator_new, needle_audio_comparator_new_default, needle_error_to_str, NeedleError,
};
use needle::util::{find_all_video_files, find_video_files, is_valid_video_file, PathProbe};
use needle::Error;

const SEC: u64 = 1_000_000_000;

fn paths() -> Vec<String> {
    vec![String::from("/tmp/abcd.mkv"), String::from("/tmp/efgh.mp4")]
}

#[test]
fn test_comparator() {
    let c = needle_audio_comparator_new(paths(), false, 10, 10, 10, 0).unwrap().0;
    assert_eq!(c.videos(), &paths()[..]);
    assert_eq!(c.hash_match_threshold, 10);
    assert_eq!(c.min_opening_duration, 10 * SEC);
    assert_eq!(c.min_ending_duration, 10 * SEC);
    assert_eq!(c.time_padding, 0);
    assert!(!c.include_endings);
    let one = needle_audio_comparator_new(vec![String::from("/tmp/abcd.mkv")], false, 10, 10, 10, 0);
    assert_eq!(one.unwrap_err(), NeedleError::ComparatorMinimumPaths);
}

#[test]
fn test_comparator_default() {
    let c = needle_audio_comparator_new_default(paths()).unwrap().0;
    assert_eq!(c.videos(), &paths()[..]);
    assert_eq!(c.hash_match_threshold, 10);
    assert_eq!(c.min_opening_duration, 20 * SEC);
    assert_eq!(c.min_ending_duration, 20 * SEC);
    assert_eq!(needle_audio_comparator_new_default(vec![]).unwrap_err(), NeedleError::ComparatorMinimumPaths);
}

#[test]
fn test_analyzer_default() {
    let a = Analyzer::from_files(vec![String::from("/tmp/abcd.mkv")], false, false);
    assert_eq!(a.videos(), &[String::from("/tmp/abcd.mkv")]);
    assert_eq!(a.opening_search_percentage.millionths, 500_000);
    assert_eq!(a.ending_search_percentage.millionths, 250_000);
    assert!(!a.include_endings && !a.threaded_decoding && !a.force);
    let c: Comparator = a.into();
    assert_eq!(c.videos(), &[String::from("/tmp/abcd.mkv")]);
    assert_eq!(c.hash_match_threshold, 10);
}

#[test]
fn every_code_has_its_words() {
    assert_eq!(needle_error_to_str(NeedleError::Success), "No error");
    assert_eq!(needle_error_to_str(NeedleError::InvalidUtf8String), "Invalid UTF-8 string");
    assert_eq!(needle_error_to_str(NeedleError::NullArgument), "Input argument is NULL");
    assert_eq!(
        needle_error_to_str(NeedleError::InvalidArgument),
        "One or more input arguments were invalid (usually zero)"
    );
    assert_eq!(needle_error_to_str(NeedleError::FrameHashDataNotFound), "Frame hash data not found on disk");
    assert_eq!(
        needle_error_to_str(NeedleError::FrameHashDataInvalidVersion),
        "Frame hash data has an invalid version."
    );
    assert_eq!(NeedleError::FrameHashDataInvalidVersion.message(), "Frame hash data has an invalid version");
    assert_eq!(NeedleError::Unknown.message(), needle_error_to_str(NeedleError::Unknown));
    assert_eq!(NeedleError::Success.message(), "No error");
    assert_eq!(needle_error_to_str(NeedleError::InvalidFrameHashData), "Invalid frame hash data read from disk");
    assert_eq!(
        needle_error_to_str(NeedleError::ComparatorMinimumPaths),
        "Comparator requires at least 2 video paths"
    );
    assert_eq!(
        needle_error_to_str(NeedleError::AnalyzerInvalidHashPeriod),
        "Analyzer hash period must be greater than 0"
    );
    assert_eq!(
        needle_error_to_str(NeedleError::AnalyzerInvalidHashDuration),
        "Analyzer hash duration must be greater than 3 seconds"
    );
    assert_eq!(needle_error_to_str(NeedleError::IOError), "I/O error");
    assert_eq!(
        needle_error_to_str(NeedleError::Unknown),
        "Unknown error occurred; please re-run with logging enabled"
    );
}

#[test]
fn errors_become_codes() {
    assert_eq!(NeedleError::from_error(Error::FrameHashDataNotFound), NeedleError::FrameHashDataNotFound);
    assert_eq!(
        NeedleError::from_error(Error::FrameHashDataInvalidVersion),
        NeedleError::FrameHashDataInvalidVersion
    );
    assert_eq!(NeedleError::from_error(Error::FrameHashDataCorrupt), NeedleError::InvalidFrameHashData);
    assert_eq!(NeedleError::from_error(Error::InvalidHashPeriod), NeedleError::AnalyzerInvalidHashPeriod);
    assert_eq!(NeedleError::from_error(Error::InvalidHashDuration), NeedleError::AnalyzerInvalidHashDuration);
    assert_eq!(NeedleError::from_error(Error::IOError), NeedleError::IOError);
    assert_eq!(NeedleError::from_error(Error::AnalyzerMissingPaths), NeedleError::Unknown);
    assert_eq!(NeedleError::from_error(Error::PathNotFound), NeedleError::Unknown);
    assert_eq!(NeedleError::from_error(Error::DecodeError), NeedleError::Unknown);
    assert_eq!(NeedleError::from_result(&Ok::<u8, Error>(1)), NeedleError::Success);
    assert_eq!(NeedleError::from_result(&Err::<u8, Error>(Error::IOError)), NeedleError::IOError);
}

#[test]
fn a_result_is_shown_line_by_line() {
    let r = SearchResult { opening: Some((65 * SEC, 155 * SEC + 999)), ending: None };
    let without = Comparator::from_files(paths());
    assert_eq!(without.display_opening_ending_info(r), vec!["* Opening - \"01:05s\"-\"02:35s\""]);
    let with = Comparator::from_files(paths()).with_include_endings(true);
    assert_eq!(
        with.display_opening_ending_info(r),
        vec!["* Opening - \"01:05s\"-\"02:35s\"", "* Ending - N/A"]
    );
    let e = SearchResult { opening: None, ending: Some((0, 3600 * SEC)) };
    assert_eq!(
        with.display_opening_ending_info(e),
        vec!["* Opening - N/A", "* Ending - \"00:00s\"-\"60:00s\""]
    );
}

#[test]
fn skip_files_are_for_results_and_for_the_same_video() {
    assert!(!Comparator::needs_skip_file(&SearchResult { opening: None, ending: None }));
    assert!(Comparator::needs_skip_file(&SearchResult { opening: Some((0, 1)), ending: None }));
    assert!(Comparator::needs_skip_file(&SearchResult { opening: None, ending: Some((0, 1)) }));
    assert!(Comparator::check_skip_file(Some("abc"), "abc"));
    assert!(!Comparator::check_skip_file(Some("abc"), "abd"));
    assert!(!Comparator::check_skip_file(None, "abc"));
}

#[test]
fn test_find_video_files() {
    let all = vec![String::from("a.mkv"), String::from("b.txt"), String::from("c.mp4")];
    assert_eq!(find_all_video_files(&all, &[true, false, true]), vec!["a.mkv", "c.mp4"]);
    assert_eq!(find_all_video_files(&all, &[false, false, false]), Vec::<String>::new());
    let file = |path: &str, exists, is_valid| PathProbe {
        path: String::from(path),
        exists,
        is_dir: false,
        is_valid,
        entries: vec![],
        entries_valid: vec![],
    };
    let dir = PathProbe {
        path: String::from("season1"),
        exists: true,
        is_dir: true,
        is_valid: false,
        entries: vec![String::from("season1/e1.mkv"), String::from("season1/notes.txt"), String::from("season1/e2.mkv")],
        entries_valid: vec![true, false, true],
    };
    let found = find_video_files(&[file("x.mp4", true, true), dir, file("y.txt", true, false)]).unwrap();
    assert_eq!(found, vec!["x.mp4", "season1/e1.mkv", "season1/e2.mkv"]);
    assert_eq!(
        find_video_files(&[file("x.mp4", true, true), file("gone.mkv", false, true)]),
        Err(Error::PathNotFound)
    );
    assert_eq!(find_video_files(&[]), Ok(vec![]));
}

#[test]
fn a_video_file_is_known_by_its_header_or_by_its_streams() {
    let mut mp4 = vec![0u8, 0, 0, 0x18];
    mp4.extend(*b"ftypmp42");
    mp4.resize(8192, 0);
    assert!(is_valid_video_file(&mp4, None, false, true));
    assert!(!is_valid_video_file(&vec![0u8; 8192], None, false, true));
    assert!(!is_valid_video_file(b"plain text, no video at all", Some((1, 1)), false, false));
    assert!(is_valid_video_file(&[], Some((1, 1)), true, true));
    assert!(!is_valid_video_file(&mp4, Some((1, 0)), true, true));
    assert!(is_valid_video_file(&mp4, Some((1, 0)), true, false));
    assert!(!is_valid_video_file(&mp4, Some((0, 2)), true, false));
    assert!(!is_valid_video_file(&mp4, None, true, false));
    assert_eq!(MediaInfo { length: 5 }.length, 5);
}

#[test]
fn lib_test_analyzer() {
    let a = Analyzer::from_files(vec![String::from("/tmp/abcd.mkv")], true, true)
        .with_include_endings(true);
    assert_eq!(a.videos(), &[String::from("/tmp/abcd.mkv")]);
    assert!(a.include_endings && a.threaded_decoding && a.force);
    assert_eq!(a.validate(300_000_000, 300_000_000), Ok(()));
}
