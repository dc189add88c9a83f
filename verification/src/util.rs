//! Formatting, checksums and the choice of video files.

use vstd::prelude::*;

use crate::error::Error;

verus! {

/// `String::push` appends one character to the end of the string.
#[verifier::external_body]
fn push_char(s: &mut String, c: char)
    ensures
        final(s)@ == old(s)@.push(c),
{
    s.push(c)
}

/// The character of a digit below ten.
pub open spec fn digit_char(d: int) -> char {
    (48 + d) as u8 as char
}

/// The decimal digits of `n`, without leading zeros; `"0"` for zero.
pub open spec fn decimal(n: nat) -> Seq<char>
    decreases n,
{
    if n < 10 {
        seq![digit_char(n as int)]
    } else {
        decimal(n / 10).push(digit_char((n % 10) as int))
    }
}

/// The decimal digits of `n`, with a zero in front where `n` has one digit.
pub open spec fn two_digits(n: nat) -> Seq<char> {
    if n < 10 {
        seq!['0'].add(decimal(n))
    } else {
        decimal(n)
    }
}

/// Whole seconds in a number of nanoseconds.
pub open spec fn whole_secs(t: u64) -> nat {
    (t / 1_000_000_000) as nat
}

/// A time as minutes and seconds, `MM:SSs`: both with two digits at least,
/// fractions of a second dropped.
pub open spec fn format_time_spec(t: u64) -> Seq<char> {
    two_digits(whole_secs(t) / 60).push(':').add(two_digits(whole_secs(t) % 60)).push('s')
}

/// Appends the decimal digits of `n`.
fn push_decimal(s: &mut String, n: u64)
    ensures
        final(s)@ == old(s)@.add(decimal(n as nat)),
    decreases n,
{
    if n >= 10 {
        push_decimal(s, n / 10);
    }
    let d = (n % 10) as u8;
    push_char(s, (48 + d) as char);
    assert(s@ =~= old(s)@.add(decimal(n as nat)));
}

/// Appends the decimal digits of `n`, two at least.
fn push_two_digits(s: &mut String, n: u64)
    ensures
        final(s)@ == old(s)@.add(two_digits(n as nat)),
{
    if n < 10 {
        push_char(s, '0');
    }
    push_decimal(s, n);
    assert(s@ =~= old(s)@.add(two_digits(n as nat)));
}

/// Formats a time in nanoseconds as `MM:SSs`.
pub fn format_time(t: u64) -> (s: String)
    ensures
        s@ == format_time_spec(t),
{
    let secs = t / 1_000_000_000;
    let mut s = String::new();
    push_two_digits(&mut s, secs / 60);
    push_char(&mut s, ':');
    push_two_digits(&mut s, secs % 60);
    push_char(&mut s, 's');
    assert(s@ =~= format_time_spec(t));
    s
}

/// The major, minor and micro part of a version number of the media library.
pub open spec fn version_parts(version_int: u32) -> (u32, u32, u32) {
    (version_int >> 16, (version_int & 0x00FF00) >> 8, version_int & 0xFF)
}

/// A version number of the media library as `major.minor.micro`.
pub open spec fn version_string_spec(version_int: u32) -> Seq<char> {
    let (major, minor, micro) = version_parts(version_int);
    decimal(major as nat).push('.').add(decimal(minor as nat)).push('.').add(decimal(micro as nat))
}

/// Formats a version number of the media library as `major.minor.micro`.
pub fn ffmpeg_version_string(version_int: u32) -> (s: String)
    ensures
        s@ == version_string_spec(version_int),
{
    let major = version_int >> 16;
    let minor = (version_int & 0x00FF00) >> 8;
    let micro = version_int & 0xFF;
    let mut s = String::new();
    push_decimal(&mut s, major as u64);
    push_char(&mut s, '.');
    push_decimal(&mut s, minor as u64);
    push_char(&mut s, '.');
    push_decimal(&mut s, micro as u64);
    assert(s@ =~= version_string_spec(version_int));
    s
}


/// Number of bytes at the head of a video file that its checksum covers.
pub const HEADER_LEN: usize = 8192;

/// The MD5 digest of `data`: what `md5::compute` returns for it.
pub uninterp spec fn md5_digest(data: Seq<u8>) -> Seq<u8>;

/// The character of a hexadecimal digit, in lower case.
pub open spec fn hex_digit(n: int) -> char {
    if n < 10 {
        (48 + n) as u8 as char
    } else {
        (87 + n) as u8 as char
    }
}

/// The bytes in hexadecimal, two lower-case digits for each.
pub open spec fn hex_lower(bytes: Seq<u8>) -> Seq<char>
    decreases bytes.len(),
{
    if bytes.len() == 0 {
        Seq::empty()
    } else {
        hex_lower(bytes.drop_last()).push(hex_digit(bytes.last() as int / 16)).push(
            hex_digit(bytes.last() as int % 16),
        )
    }
}

/// `md5::compute` returns the MD5 digest of the data, sixteen bytes, and a
/// digest formatted with `{:x}` is each of its bytes as two lower-case
/// hexadecimal digits.
#[verifier::external_body]
fn md5_hex(data: &[u8]) -> (s: String)
    ensures
        s@ == hex_lower(md5_digest(data@)),
        s@.len() == 32,
{
    format!("{:x}", md5::compute(data))
}

/// The checksum of the head of a video file: the MD5 of its first
/// `HEADER_LEN` bytes in hexadecimal. `data` is the file from its start; a
/// file shorter than the head cannot be read as far as needed.
pub fn compute_header_md5sum(data: &[u8]) -> (r: Result<String, Error>)
    ensures
        data@.len() < HEADER_LEN ==> r == Err::<String, Error>(Error::IOError),
        data@.len() >= HEADER_LEN ==> r.is_ok() && r.unwrap()@ == hex_lower(
            md5_digest(data@.subrange(0, HEADER_LEN as int)),
        ),
{
    if data.len() < HEADER_LEN {
        Err(Error::IOError)
    } else {
        Ok(md5_hex(vstd::slice::slice_subrange(data, 0, HEADER_LEN)))
    }
}

/// The checksum of a whole video file: the MD5 of its bytes in hexadecimal.
pub fn compute_md5sum(data: &[u8]) -> (s: String)
    ensures
        s@ == hex_lower(md5_digest(data@)),
{
    md5_hex(data)
}

/// Whether `buf` begins like a video file: what `infer::is_video` answers.
pub uninterp spec fn is_video_signature(buf: Seq<u8>) -> bool;

/// `infer::is_video` says whether the buffer begins with the signature of a
/// video format that it knows.
#[verifier::external_body]
fn infer_is_video(buf: &[u8]) -> (b: bool)
    ensures
        b == is_video_signature(buf@),
{
    infer::is_video(buf)
}

/// Whether a file with the given streams is a video: it has a video stream
/// and, where audio is asked for, an audio stream.
pub open spec fn streams_valid(streams: Option<(usize, usize)>, audio: bool) -> bool {
    match streams {
        Some((video, sound)) => video > 0 && (!audio || sound > 0),
        None => false,
    }
}

/// Whether a file is a valid video file. `header` is the head of the file.
/// `streams` is the number of video streams and of audio streams that the
/// media library found in it, or nothing where it could not open the file.
///
/// If `full` is false only the header counts. Else the streams count, and if
/// `audio` is set there must be an audio stream among them.
pub fn is_valid_video_file(header: &[u8], streams: Option<(usize, usize)>, full: bool, audio: bool) -> (b:
    bool)
    ensures
        !full ==> b == is_video_signature(header@),
        full ==> b == streams_valid(streams, audio),
{
    if !full {
        return infer_is_video(header);
    }
    match streams {
        Some((video, sound)) => video > 0 && (!audio || sound > 0),
        None => false,
    }
}

/// The paths whose flag is set, in their order.
pub open spec fn kept(paths: Seq<String>, valid: Seq<bool>) -> Seq<String>
    decreases paths.len(),
{
    if paths.len() == 0 {
        Seq::empty()
    } else {
        let before = kept(paths.drop_last(), valid.drop_last());
        if valid.last() {
            before.push(paths.last())
        } else {
            before
        }
    }
}

/// Appends the paths whose flag is set.
fn push_kept(out: &mut Vec<String>, paths: &[String], valid: &[bool])
    requires
        paths@.len() == valid@.len(),
    ensures
        final(out)@ == old(out)@ + kept(paths@, valid@),
{
    let ghost start = out@;
    let mut k: usize = 0;
    while k < paths.len()
        invariant
            0 <= k <= paths.len(),
            paths@.len() == valid@.len(),
            out@ == start + kept(paths@.take(k as int), valid@.take(k as int)),
        decreases paths.len() - k,
    {
        proof {
            assert(paths@.take(k + 1).drop_last() == paths@.take(k as int));
            assert(valid@.take(k + 1).drop_last() == valid@.take(k as int));
        }
        if valid[k] {
            out.push(paths[k].clone());
        }
        k += 1;
    }
    assert(paths@.take(k as int) == paths@);
    assert(valid@.take(k as int) == valid@);
}

/// Of the given paths, those that are valid video files, in their order.
/// `valid` says for each path whether it is one.
pub fn find_all_video_files(paths: &[String], valid: &[bool]) -> (out: Vec<String>)
    requires
        paths@.len() == valid@.len(),
    ensures
        out@ == kept(paths@, valid@),
{
    let mut out: Vec<String> = Vec::new();
    push_kept(&mut out, paths, valid);
    out
}

/// What was found at a path that the user named.
#[derive(Debug)]
pub struct PathProbe {
    /// The path.
    pub path: String,
    /// Whether anything exists at the path.
    pub exists: bool,
    /// Whether the path is a directory.
    pub is_dir: bool,
    /// For a file: whether it is a valid video file.
    pub is_valid: bool,
    /// For a directory: the paths of its entries.
    pub entries: Vec<String>,
    /// For a directory: for each entry, whether it is a valid video file.
    pub entries_valid: Vec<bool>,
}

impl PathProbe {
    /// There is one flag for each entry.
    pub open spec fn wf(&self) -> bool {
        self.entries@.len() == self.entries_valid@.len()
    }

    /// The video files that the path stands for: the valid ones among the
    /// entries of a directory, or the file itself if it is valid.
    pub open spec fn videos(&self) -> Seq<String> {
        if self.is_dir {
            kept(self.entries@, self.entries_valid@)
        } else if self.is_valid {
            seq![self.path]
        } else {
            Seq::empty()
        }
    }
}

/// Every probe is well formed.
pub open spec fn probes_wf(probes: Seq<PathProbe>) -> bool {
    forall|i: int| 0 <= i < probes.len() ==> (#[trigger] probes[i]).wf()
}

/// Some path does not exist.
pub open spec fn some_path_missing(probes: Seq<PathProbe>) -> bool {
    exists|i: int| 0 <= i < probes.len() && !(#[trigger] probes[i]).exists
}

/// The video files of the first `k` paths.
pub open spec fn videos_of(probes: Seq<PathProbe>, k: int) -> Seq<String>
    decreases k,
{
    if k <= 0 {
        Seq::empty()
    } else {
        videos_of(probes, k - 1) + probes[k - 1].videos()
    }
}

/// Given what was found at a list of paths (files or directories), the list
/// of valid video files: for a directory its valid entries, one level deep.
/// Fails with `PathNotFound` where a path does not exist.
pub fn find_video_files(probes: &[PathProbe]) -> (r: Result<Vec<String>, Error>)
    requires
        probes_wf(probes@),
    ensures
        some_path_missing(probes@) ==> r == Err::<Vec<String>, Error>(Error::PathNotFound),
        !some_path_missing(probes@) ==> r.is_ok() && r.unwrap()@ == videos_of(
            probes@,
            probes@.len() as int,
        ),
{
    let mut i: usize = 0;
    while i < probes.len()
        invariant
            0 <= i <= probes.len(),
            forall|t: int| 0 <= t < i ==> (#[trigger] probes@[t]).exists,
        decreases probes.len() - i,
    {
        if !probes[i].exists {
            return Err(Error::PathNotFound);
        }
        i += 1;
    }
    let mut out: Vec<String> = Vec::new();
    let mut k: usize = 0;
    while k < probes.len()
        invariant
            0 <= k <= probes.len(),
            probes_wf(probes@),
            out@ == videos_of(probes@, k as int),
        decreases probes.len() - k,
    {
        let probe = &probes[k];
        assert(probes@[k as int].wf());
        if probe.is_dir {
            push_kept(&mut out, probe.entries.as_slice(), probe.entries_valid.as_slice());
        } else if probe.is_valid {
            out.push(probe.path.clone());
            assert(out@ =~= videos_of(probes@, k as int) + probe.videos());
        } else {
            assert(out@ =~= videos_of(probes@, k as int) + probe.videos());
        }
        k += 1;
    }
    Ok(out)
}

} // verus!
