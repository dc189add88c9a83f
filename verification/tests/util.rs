use needle::util::{compute_header_md5sum, compute_md5sum, ffmpeg_version_string, format_time};
use needle::Error;

#[test]
fn format_time_pads_minutes_and_seconds() {
    assert_eq!(format_time(0), "00:00s");
    assert_eq!(format_time(65_000_000_000), "01:05s");
    assert_eq!(format_time(59_999_999_999), "00:59s");
    assert_eq!(format_time(6_000_000_000_000), "100:00s");
}

#[test]
fn version_string_splits_the_three_parts() {
    assert_eq!(ffmpeg_version_string((59 << 16) | (37 << 8) | 100), "59.37.100");
    assert_eq!(ffmpeg_version_string(0), "0.0.0");
}

#[test]
fn md5_of_known_text() {
    assert_eq!(compute_md5sum(b"abcdefghijklmnopqrstuvwxyz"), "c3fcd3d76192e4007dfb496cca67e13b");
    assert_eq!(compute_md5sum(b""), "d41d8cd98f00b204e9800998ecf8427e");
}

#[test]
fn header_md5_needs_a_whole_header() {
    let short = vec![0u8; 8191];
    assert_eq!(compute_header_md5sum(&short), Err(Error::IOError));
    let mut long = vec![7u8; 8192];
    let head = compute_header_md5sum(&long).unwrap();
    long.extend_from_slice(&[1, 2, 3]);
    assert_eq!(compute_header_md5sum(&long).unwrap(), head);
    assert_eq!(head, compute_md5sum(&vec![7u8; 8192]));
    assert_eq!(head.len(), 32);
}
