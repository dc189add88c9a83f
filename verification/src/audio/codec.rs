//! Frame hashes as bytes.
//!
//! A record is written as the magic number of its version (4 bytes), the
//! opening stream, the ending stream, the hash duration (8 bytes), the length
//! of the MD5 string in bytes (8 bytes) and the MD5 string in UTF-8. A stream
//! is the number of its samples (8 bytes) and then its samples, each a hash
//! (4 bytes) and a timestamp in nanoseconds (8 bytes). All numbers are little
//! endian. Bytes after the record are ignored.

use vstd::bytes::{
    lemma_auto_spec_u32_to_from_le_bytes, lemma_auto_spec_u64_to_from_le_bytes,
    spec_u32_from_le_bytes, spec_u32_to_le_bytes, spec_u64_from_le_bytes, spec_u64_to_le_bytes,
    u32_from_le_bytes, u32_to_le_bytes, u64_from_le_bytes, u64_to_le_bytes,
};
use vstd::prelude::*;
use vstd::slice::{slice_subrange, slice_to_vec};
use vstd::utf8::{
    decode_utf8, decode_utf8_encode_utf8, encode_utf8, encode_utf8_decode_utf8,
    encode_utf8_valid_utf8, valid_utf8,
};

use super::data::{
    is_ending_stream, is_opening_stream, FrameHashes, FrameHashesView, FRAME_HASHES_V1_MAGIC,
};
use super::matcher::is_monotonic;
use crate::error::Error;

verus! {

/// The bytes of one sample: its hash, then its timestamp.
pub open spec fn sample_bytes(s: (u32, u64)) -> Seq<u8> {
    spec_u32_to_le_bytes(s.0) + spec_u64_to_le_bytes(s.1)
}

/// The bytes of the samples of a stream, one after the other.
pub open spec fn samples_bytes(s: Seq<(u32, u64)>) -> Seq<u8>
    decreases s.len(),
{
    if s.len() == 0 {
        Seq::empty()
    } else {
        samples_bytes(s.drop_last()) + sample_bytes(s.last())
    }
}

/// The bytes of a stream: the number of its samples, then the samples.
pub open spec fn stream_bytes(s: Seq<(u32, u64)>) -> Seq<u8> {
    spec_u64_to_le_bytes(s.len() as u64) + samples_bytes(s)
}

/// The lengths that a record holds fit into the 8 bytes that each gets.
pub open spec fn encodable(v: FrameHashesView) -> bool {
    &&& v.opening.len() <= u64::MAX
    &&& v.ending.len() <= u64::MAX
    &&& encode_utf8(v.md5).len() <= u64::MAX
}

/// The bytes of a record.
pub open spec fn encoding(v: FrameHashesView) -> Seq<u8> {
    spec_u32_to_le_bytes(FRAME_HASHES_V1_MAGIC) + stream_bytes(v.opening) + stream_bytes(v.ending)
        + spec_u64_to_le_bytes(v.hash_duration) + spec_u64_to_le_bytes(
        encode_utf8(v.md5).len() as u64,
    ) + encode_utf8(v.md5)
}

/// The 32-bit number that stands at `pos`.
pub open spec fn u32_at(b: Seq<u8>, pos: int) -> u32 {
    spec_u32_from_le_bytes(b.subrange(pos, pos + 4))
}

/// The 64-bit number that stands at `pos`.
pub open spec fn u64_at(b: Seq<u8>, pos: int) -> u64 {
    spec_u64_from_le_bytes(b.subrange(pos, pos + 8))
}

/// The `count` samples that stand at `pos`.
pub open spec fn samples_at(b: Seq<u8>, pos: int, count: int) -> Seq<(u32, u64)> {
    Seq::new(count as nat, |k: int| (u32_at(b, pos + 12 * k), u64_at(b, pos + 12 * k + 4)))
}

/// The stream that stands at `pos`, with the position behind it; nothing
/// where the bytes end before the stream does.
pub open spec fn stream_at(b: Seq<u8>, pos: int) -> Option<(Seq<(u32, u64)>, int)> {
    if pos + 8 > b.len() {
        None
    } else {
        let count = u64_at(b, pos);
        if 12 * count > b.len() - (pos + 8) {
            None
        } else {
            Some((samples_at(b, pos + 8, count as int), pos + 8 + 12 * count))
        }
    }
}

/// What is behind the two streams, from `pos` on: the hash duration and the
/// MD5 string.
pub open spec fn tail_at(b: Seq<u8>, pos: int) -> Option<(u64, Seq<char>)> {
    if pos + 16 > b.len() {
        None
    } else {
        let n = u64_at(b, pos + 8);
        if n > b.len() - (pos + 16) {
            None
        } else {
            let text = b.subrange(pos + 16, pos + 16 + n);
            if valid_utf8(text) {
                Some((u64_at(b, pos), decode_utf8(text)))
            } else {
                None
            }
        }
    }
}

/// The record that `b` begins with. It is `FrameHashDataInvalidVersion` where
/// `b` has four bytes or more and they are not the magic number of a known
/// version, and `FrameHashDataCorrupt` where `b` ends too early, the MD5
/// string is no UTF-8, the timestamps of a stream decrease, the opening stream
/// reaches the last moment of the time line or the ending stream starts at
/// its first.
pub open spec fn decoded(b: Seq<u8>) -> Result<FrameHashesView, Error> {
    if b.len() < 4 {
        Err(Error::FrameHashDataCorrupt)
    } else if u32_at(b, 0) != FRAME_HASHES_V1_MAGIC {
        Err(Error::FrameHashDataInvalidVersion)
    } else {
        match stream_at(b, 4) {
            None => Err(Error::FrameHashDataCorrupt),
            Some((opening, p1)) => match stream_at(b, p1) {
                None => Err(Error::FrameHashDataCorrupt),
                Some((ending, p2)) => match tail_at(b, p2) {
                    None => Err(Error::FrameHashDataCorrupt),
                    Some((hash_duration, md5)) => if is_opening_stream(opening) && is_ending_stream(
                        ending,
                    ) {
                        Ok(FrameHashesView { opening, ending, hash_duration, md5 })
                    } else {
                        Err(Error::FrameHashDataCorrupt)
                    },
                },
            },
        }
    }
}

/// `part` stands in `b` at `pos`.
pub open spec fn stands_at(b: Seq<u8>, pos: int, part: Seq<u8>) -> bool {
    0 <= pos && pos + part.len() <= b.len() && b.subrange(pos, pos + part.len()) == part
}

/// Each sample takes twelve bytes, and stands where its number says.
pub proof fn lemma_samples_bytes(s: Seq<(u32, u64)>)
    ensures
        samples_bytes(s).len() == 12 * s.len(),
        forall|k: int|
            0 <= k < s.len() ==> #[trigger] samples_bytes(s).subrange(12 * k, 12 * k + 12)
                == sample_bytes(s[k]),
    decreases s.len(),
{
    lemma_auto_spec_u32_to_from_le_bytes();
    lemma_auto_spec_u64_to_from_le_bytes();
    if s.len() > 0 {
        let init = s.drop_last();
        lemma_samples_bytes(init);
        let all = samples_bytes(s);
        assert(all == samples_bytes(init) + sample_bytes(s.last()));
        assert forall|k: int| 0 <= k < s.len() implies #[trigger] all.subrange(12 * k, 12 * k + 12)
            == sample_bytes(s[k]) by {
            if k < init.len() {
                assert(all.subrange(12 * k, 12 * k + 12) =~= samples_bytes(init).subrange(
                    12 * k,
                    12 * k + 12,
                ));
                assert(init[k] == s[k]);
            } else {
                assert(all.subrange(12 * k, 12 * k + 12) =~= sample_bytes(s.last()));
            }
        }
    }
}

/// Where the bytes of a stream stand in `b`, that stream is read there.
pub proof fn lemma_stream_at(b: Seq<u8>, pos: int, s: Seq<(u32, u64)>)
    requires
        s.len() <= u64::MAX,
        stands_at(b, pos, stream_bytes(s)),
    ensures
        stream_bytes(s).len() == 8 + 12 * s.len(),
        stream_at(b, pos) == Some((s, pos + 8 + 12 * s.len())),
{
    lemma_auto_spec_u32_to_from_le_bytes();
    lemma_auto_spec_u64_to_from_le_bytes();
    lemma_samples_bytes(s);
    let sb = stream_bytes(s);
    let head = spec_u64_to_le_bytes(s.len() as u64);
    assert(b.subrange(pos, pos + 8) =~= head) by {
        assert(b.subrange(pos, pos + 8) =~= b.subrange(pos, pos + sb.len()).subrange(0, 8));
        assert(sb.subrange(0, 8) =~= head);
    }
    assert(u64_at(b, pos) == s.len());
    let read = samples_at(b, pos + 8, s.len() as int);
    assert forall|k: int| 0 <= k < s.len() implies read[k] == s[k] by {
        let at = pos + 8 + 12 * k;
        let block = sample_bytes(s[k]);
        assert(b.subrange(at, at + 12) =~= block) by {
            assert(b.subrange(at, at + 12) =~= b.subrange(pos, pos + sb.len()).subrange(
                8 + 12 * k,
                8 + 12 * k + 12,
            ));
            assert(sb.subrange(8 + 12 * k, 8 + 12 * k + 12) =~= samples_bytes(s).subrange(
                12 * k,
                12 * k + 12,
            ));
        }
        assert(b.subrange(at, at + 4) =~= spec_u32_to_le_bytes(s[k].0)) by {
            assert(b.subrange(at, at + 4) =~= b.subrange(at, at + 12).subrange(0, 4));
            assert(block.subrange(0, 4) =~= spec_u32_to_le_bytes(s[k].0));
        }
        assert(b.subrange(at + 4, at + 12) =~= spec_u64_to_le_bytes(s[k].1)) by {
            assert(b.subrange(at + 4, at + 12) =~= b.subrange(at, at + 12).subrange(4, 12));
            assert(block.subrange(4, 12) =~= spec_u64_to_le_bytes(s[k].1));
        }
    }
    assert(read =~= s);
}

/// The samples that are read at `pos` have the bytes that stand there.
pub proof fn lemma_samples_at(b: Seq<u8>, pos: int, count: int)
    requires
        0 <= pos,
        0 <= count,
        pos + 12 * count <= b.len(),
    ensures
        samples_bytes(samples_at(b, pos, count)) == b.subrange(pos, pos + 12 * count),
    decreases count,
{
    lemma_auto_spec_u32_to_from_le_bytes();
    lemma_auto_spec_u64_to_from_le_bytes();
    let s = samples_at(b, pos, count);
    if count > 0 {
        lemma_samples_at(b, pos, count - 1);
        assert(s.drop_last() =~= samples_at(b, pos, count - 1));
        let at = pos + 12 * (count - 1);
        assert(s.last() == (u32_at(b, at), u64_at(b, at + 4)));
        assert(sample_bytes(s.last()) == b.subrange(at, at + 4) + b.subrange(at + 4, at + 12));
        assert(samples_bytes(s) =~= b.subrange(pos, pos + 12 * count));
    } else {
        assert(samples_bytes(s) =~= b.subrange(pos, pos + 12 * count));
    }
}

/// The stream that is read at `pos` has the bytes that stand there.
pub proof fn lemma_stream_read(b: Seq<u8>, pos: int)
    requires
        0 <= pos,
        stream_at(b, pos).is_some(),
    ensures
        stream_at(b, pos).unwrap().0.len() <= u64::MAX,
        stream_at(b, pos).unwrap().1 <= b.len(),
        stream_bytes(stream_at(b, pos).unwrap().0) == b.subrange(pos, stream_at(b, pos).unwrap().1),
{
    lemma_auto_spec_u64_to_from_le_bytes();
    let count = u64_at(b, pos);
    lemma_samples_at(b, pos + 8, count as int);
    let s = samples_at(b, pos + 8, count as int);
    assert(spec_u64_to_le_bytes(s.len() as u64) == b.subrange(pos, pos + 8));
    assert(stream_bytes(s) =~= b.subrange(pos, pos + 8 + 12 * count));
}

/// What is read from bytes is a well-formed record whose own bytes are the
/// bytes it was read from: decoding and encoding again gives the same bytes,
/// up to the bytes behind the record, which are ignored.
pub proof fn lemma_decoded_is_prefix(b: Seq<u8>)
    requires
        decoded(b).is_ok(),
    ensures
        decoded(b).unwrap().wf(),
        encodable(decoded(b).unwrap()),
        stands_at(b, 0, encoding(decoded(b).unwrap())),
{
    lemma_auto_spec_u32_to_from_le_bytes();
    lemma_auto_spec_u64_to_from_le_bytes();
    let v = decoded(b).unwrap();
    let p1 = stream_at(b, 4).unwrap().1;
    let p2 = stream_at(b, p1).unwrap().1;
    lemma_stream_read(b, 4);
    lemma_stream_read(b, p1);
    let n = u64_at(b, p2 + 8);
    let text = b.subrange(p2 + 16, p2 + 16 + n);
    decode_utf8_encode_utf8(text);
    assert(encode_utf8(v.md5) == text);
    assert(spec_u32_to_le_bytes(FRAME_HASHES_V1_MAGIC) == b.subrange(0, 4));
    assert(spec_u64_to_le_bytes(v.hash_duration) == b.subrange(p2, p2 + 8));
    assert(spec_u64_to_le_bytes(encode_utf8(v.md5).len() as u64) == b.subrange(p2 + 8, p2 + 16));
    assert(encoding(v) =~= b.subrange(0, p2 + 16 + n));
}

/// Writing a record and reading it again gives the record back, whatever
/// stands behind it.
pub proof fn lemma_encode_decode(v: FrameHashesView, rest: Seq<u8>)
    requires
        v.wf(),
        encodable(v),
    ensures
        decoded(encoding(v) + rest) == Ok::<FrameHashesView, Error>(v),
{
    lemma_auto_spec_u32_to_from_le_bytes();
    lemma_auto_spec_u64_to_from_le_bytes();
    lemma_samples_bytes(v.opening);
    lemma_samples_bytes(v.ending);
    let b = encoding(v) + rest;
    let magic = spec_u32_to_le_bytes(FRAME_HASHES_V1_MAGIC);
    let o = stream_bytes(v.opening);
    let e = stream_bytes(v.ending);
    let hd = spec_u64_to_le_bytes(v.hash_duration);
    let text = encode_utf8(v.md5);
    let tl = spec_u64_to_le_bytes(text.len() as u64);
    assert(o.len() == 8 + 12 * v.opening.len());
    assert(e.len() == 8 + 12 * v.ending.len());
    let ol = o.len() as int;
    let el = e.len() as int;
    let tn = text.len() as int;
    let p1: int = 4 + ol;
    let p2: int = p1 + el;
    assert(b.subrange(0, 4) =~= magic);
    assert(b.subrange(4, 4 + ol) =~= o);
    assert(b.subrange(p1, p1 + el) =~= e);
    assert(b.subrange(p2, p2 + 8) =~= hd);
    assert(b.subrange(p2 + 8, p2 + 16) =~= tl);
    assert(b.subrange(p2 + 16, p2 + 16 + tn) =~= text);
    lemma_stream_at(b, 4, v.opening);
    lemma_stream_at(b, p1, v.ending);
    encode_utf8_valid_utf8(v.md5);
    encode_utf8_decode_utf8(v.md5);
    assert(u64_at(b, p2 + 8) == text.len());
    assert(tail_at(b, p2) == Some((v.hash_duration, v.md5)));
}

/// Whether the timestamps of a stream never decrease.
pub fn is_monotonic_stream(s: &[(u32, u64)]) -> (b: bool)
    ensures
        b == is_monotonic(s@),
{
    if s.len() == 0 {
        return true;
    }
    let mut k: usize = 1;
    while k < s.len()
        invariant
            1 <= k <= s.len(),
            forall|i: int, j: int| 0 <= i <= j < k ==> s@[i].1 <= s@[j].1,
        decreases s.len() - k,
    {
        if s[k - 1].1 > s[k].1 {
            return false;
        }
        assert forall|i: int, j: int| 0 <= i <= j < k + 1 implies s@[i].1 <= s@[j].1 by {
            if j == k && i < k {
                assert(s@[i].1 <= s@[k - 1].1);
            }
        }
        k += 1;
    }
    true
}

/// Whether a stream can be the stream of an opening region.
pub fn is_valid_opening_stream(s: &[(u32, u64)]) -> (b: bool)
    ensures
        b == is_opening_stream(s@),
{
    if !is_monotonic_stream(s) {
        return false;
    }
    let n = s.len();
    if n > 0 && s[n - 1].1 == u64::MAX {
        return false;
    }
    assert forall|i: int| 0 <= i < s@.len() implies (#[trigger] s@[i]).1 < u64::MAX by {
        assert(s@[i].1 <= s@[n - 1].1);
    }
    true
}

/// Whether a stream can be the stream of an ending region.
pub fn is_valid_ending_stream(s: &[(u32, u64)]) -> (b: bool)
    ensures
        b == is_ending_stream(s@),
{
    if !is_monotonic_stream(s) {
        return false;
    }
    if s.len() > 0 && s[0].1 == 0 {
        return false;
    }
    assert forall|i: int| 0 <= i < s@.len() implies (#[trigger] s@[i]).1 > 0 by {
        assert(s@[0].1 <= s@[i].1);
    }
    true
}

/// `String::from_utf8` gives the string whose UTF-8 encoding the bytes are,
/// and fails exactly where the bytes are no UTF-8.
#[verifier::external_body]
fn string_from_utf8(bytes: Vec<u8>) -> (r: Option<String>)
    ensures
        match r {
            Some(s) => valid_utf8(bytes@) && s@ == decode_utf8(bytes@),
            None => !valid_utf8(bytes@),
        },
{
    String::from_utf8(bytes).ok()
}

/// Reads the stream that stands at `pos`.
fn read_stream(b: &[u8], pos: usize) -> (r: Option<(Vec<(u32, u64)>, usize)>)
    requires
        pos <= b@.len(),
    ensures
        match r {
            Some((s, next)) => stream_at(b@, pos as int) == Some((s@, next as int)) && next
                <= b@.len(),
            None => stream_at(b@, pos as int).is_none(),
        },
{
    let len = b.len();
    if len - pos < 8 {
        return None;
    }
    let count = u64_from_le_bytes(slice_subrange(b, pos, pos + 8));
    let room = len - pos - 8;
    if count > (room / 12) as u64 {
        return None;
    }
    let n = count as usize;
    let start = pos + 8;
    let mut s: Vec<(u32, u64)> = Vec::new();
    let mut k: usize = 0;
    while k < n
        invariant
            0 <= k <= n,
            start + 12 * n <= b@.len(),
            b@.len() == len,
            s@.len() == k,
            forall|t: int|
                0 <= t < k ==> s@[t] == (
                    u32_at(b@, start + 12 * t),
                    u64_at(b@, start + 12 * t + 4),
                ),
        decreases n - k,
    {
        let at = start + 12 * k;
        let hash = u32_from_le_bytes(slice_subrange(b, at, at + 4));
        let ts = u64_from_le_bytes(slice_subrange(b, at + 4, at + 12));
        s.push((hash, ts));
        k += 1;
    }
    assert(s@ =~= samples_at(b@, start as int, n as int));
    Some((s, start + 12 * n))
}

impl FrameHashes {
    /// The bytes of the record.
    pub fn to_bytes(&self) -> (out: Vec<u8>)
        ensures
            encodable(self@),
            out@ == encoding(self@),
    {
        let opening = self.opening_data();
        let ending = self.ending_data();
        let text = self.md5().as_bytes();
        assert(opening@.len() == opening.len() && ending@.len() == ending.len() && text@.len()
            == text.len());
        let mut out = u32_to_le_bytes(FRAME_HASHES_V1_MAGIC);
        write_stream(&mut out, opening);
        write_stream(&mut out, ending);
        let mut hd = u64_to_le_bytes(self.hash_duration());
        out.append(&mut hd);
        let mut tl = u64_to_le_bytes(text.len() as u64);
        out.append(&mut tl);
        let mut t = slice_to_vec(text);
        out.append(&mut t);
        out
    }

    /// Reads the record that `bytes` begin with.
    pub fn from_bytes(bytes: &[u8]) -> (r: Result<FrameHashes, Error>)
        ensures
            match r {
                Ok(f) => f.wf() && decoded(bytes@) == Ok::<FrameHashesView, Error>(f@),
                Err(e) => decoded(bytes@) == Err::<FrameHashesView, Error>(e),
            },
    {
        let len = bytes.len();
        if len < 4 {
            return Err(Error::FrameHashDataCorrupt);
        }
        let magic = u32_from_le_bytes(slice_subrange(bytes, 0, 4));
        if magic != FRAME_HASHES_V1_MAGIC {
            return Err(Error::FrameHashDataInvalidVersion);
        }
        let (opening, p1) = match read_stream(bytes, 4) {
            Some(x) => x,
            None => {
                return Err(Error::FrameHashDataCorrupt);
            },
        };
        let (ending, p2) = match read_stream(bytes, p1) {
            Some(x) => x,
            None => {
                return Err(Error::FrameHashDataCorrupt);
            },
        };
        if len - p2 < 16 {
            return Err(Error::FrameHashDataCorrupt);
        }
        let hash_duration = u64_from_le_bytes(slice_subrange(bytes, p2, p2 + 8));
        let n = u64_from_le_bytes(slice_subrange(bytes, p2 + 8, p2 + 16));
        if n > (len - p2 - 16) as u64 {
            return Err(Error::FrameHashDataCorrupt);
        }
        let text = slice_to_vec(slice_subrange(bytes, p2 + 16, p2 + 16 + n as usize));
        let md5 = match string_from_utf8(text) {
            Some(s) => s,
            None => {
                return Err(Error::FrameHashDataCorrupt);
            },
        };
        if !is_valid_opening_stream(opening.as_slice()) || !is_valid_ending_stream(
            ending.as_slice(),
        ) {
            return Err(Error::FrameHashDataCorrupt);
        }
        Ok(FrameHashes::new_v1(opening, ending, hash_duration, md5))
    }
}

impl FrameHashes {
    /// Reads the frame hashes that lie next to a video, from the contents of
    /// their file. Where there is no such file, the frame hashes are not
    /// found.
    pub fn from_path(contents: Option<&[u8]>) -> (r: Result<FrameHashes, Error>)
        ensures
            match contents {
                None => r == Err::<FrameHashes, Error>(Error::FrameHashDataNotFound),
                Some(bytes) => match r {
                    Ok(f) => f.wf() && decoded(bytes@) == Ok::<FrameHashesView, Error>(f@),
                    Err(e) => decoded(bytes@) == Err::<FrameHashesView, Error>(e),
                },
            },
    {
        match contents {
            None => Err(Error::FrameHashDataNotFound),
            Some(bytes) => FrameHashes::from_bytes(bytes),
        }
    }

    /// The frame hashes of a video that was analyzed before: those that lie
    /// next to it.
    pub fn from_video(contents: Option<&[u8]>) -> (r: Result<FrameHashes, Error>)
        ensures
            match contents {
                None => r == Err::<FrameHashes, Error>(Error::FrameHashDataNotFound),
                Some(bytes) => match r {
                    Ok(f) => f.wf() && decoded(bytes@) == Ok::<FrameHashesView, Error>(f@),
                    Err(e) => decoded(bytes@) == Err::<FrameHashesView, Error>(e),
                },
            },
    {
        FrameHashes::from_path(contents)
    }
}

/// Appends the bytes of a stream.
fn write_stream(out: &mut Vec<u8>, s: &[(u32, u64)])
    ensures
        final(out)@ == old(out)@ + stream_bytes(s@),
{
    let ghost start = out@;
    let mut head = u64_to_le_bytes(s.len() as u64);
    out.append(&mut head);
    let mut k: usize = 0;
    while k < s.len()
        invariant
            0 <= k <= s.len(),
            out@ == start + spec_u64_to_le_bytes(s@.len() as u64) + samples_bytes(s@.take(k as int)),
        decreases s.len() - k,
    {
        let (hash, ts) = s[k];
        let mut h = u32_to_le_bytes(hash);
        let mut t = u64_to_le_bytes(ts);
        proof {
            assert(s@.take(k + 1).drop_last() == s@.take(k as int));
            assert(s@.take(k + 1).last() == (hash, ts));
        }
        out.append(&mut h);
        out.append(&mut t);
        assert(out@ =~= start + spec_u64_to_le_bytes(s@.len() as u64) + samples_bytes(
            s@.take(k + 1),
        ));
        k += 1;
    }
    assert(s@.take(k as int) == s@);
    assert(out@ =~= start + stream_bytes(s@));
}

} // verus!
