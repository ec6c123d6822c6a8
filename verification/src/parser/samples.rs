//! The 31 sample headers: name, length, finetune, volume, loop start/length.
//!
//! Lengths and loop points are stored big-endian in 16-bit words and are
//! converted to bytes. A loop length of at most one word means the sample does
//! not loop; a loop reaching past the sample's end is clamped to it.
use vstd::prelude::*;

use super::header::slice_range;
use super::text::{decode_text_field, text_field, trim_nul};
use vstd::utf8::{decode_utf8, valid_utf8};
use super::{ParseError, Sample, SAMPLE_COUNT, SAMPLE_HEADERS_OFFSET, SAMPLE_HEADER_BYTES};

verus! {

/// The big-endian 16-bit value at `off`.
pub open spec fn be_u16(bytes: Seq<u8>, off: int) -> int {
    bytes[off] * 256 + bytes[off + 1]
}

/// The signed finetune that the low nibble of `b` holds (two's complement).
pub open spec fn spec_finetune(b: u8) -> int {
    if b % 16 >= 8 {
        b % 16 - 16
    } else {
        (b % 16) as int
    }
}

/// `a` or `b`, whichever is smaller.
pub open spec fn min_int(a: int, b: int) -> int {
    if a <= b {
        a
    } else {
        b
    }
}

/// The loop region `(start, length)` in bytes of a sample `length_bytes` long
/// whose header stores `start_words` and `len_words`: none when the stored
/// length is at most one word, otherwise clamped to the sample.
pub open spec fn spec_loop(length_bytes: int, start_words: int, len_words: int) -> (int, int) {
    if len_words <= 1 {
        (0, 0)
    } else {
        let start = min_int(2 * start_words, length_bytes);
        (start, min_int(2 * len_words, length_bytes - start))
    }
}

/// `s` is the sample header `i` (0-based) that `bytes` holds.
pub open spec fn sample_matches(s: Sample, bytes: Seq<u8>, i: int) -> bool {
    let h = 20 + 30 * i;
    let length = 2 * be_u16(bytes, h + 22);
    let lp = spec_loop(length, be_u16(bytes, h + 26), be_u16(bytes, h + 28));
    &&& s.name@ == text_field(bytes.subrange(h, h + 22))
    &&& valid_utf8(bytes.subrange(h, h + 22)) ==> s.name@ == trim_nul(decode_utf8(bytes.subrange(h, h + 22)))
    &&& s.length_bytes == length
    &&& s.finetune == spec_finetune(bytes[h + 24])
    &&& s.volume == min_int(bytes[h + 25] as int, 64)
    &&& s.loop_start_bytes == lp.0
    &&& s.loop_len_bytes == lp.1
}

/// `v` is the full table of 31 sample headers that `bytes` holds.
pub open spec fn samples_match(v: Seq<Sample>, bytes: Seq<u8>) -> bool {
    &&& v.len() == 31
    &&& forall|i: int| 0 <= i < 31 ==> sample_matches(#[trigger] v[i], bytes, i)
}

/// Reads sample header `i` from `bytes`.
fn parse_one(bytes: &[u8], i: usize) -> (s: Sample)
    requires
        i < 31,
        bytes@.len() >= 950,
    ensures
        sample_matches(s, bytes@, i as int),
{
    let h: usize = SAMPLE_HEADERS_OFFSET + SAMPLE_HEADER_BYTES * i;
    let name_bytes = slice_range(bytes, h, h + 22);
    let name = decode_text_field(name_bytes.as_slice());
    let length_words: u32 = bytes[h + 22] as u32 * 256 + bytes[h + 23] as u32;
    let length_bytes: u32 = 2 * length_words;
    let ft: u8 = bytes[h + 24] % 16;
    let finetune: i8 = if ft >= 8 {
        ft as i8 - 16
    } else {
        ft as i8
    };
    let raw_volume = bytes[h + 25];
    let volume: u8 = if raw_volume <= 64 {
        raw_volume
    } else {
        64
    };
    let start_words: u32 = bytes[h + 26] as u32 * 256 + bytes[h + 27] as u32;
    let len_words: u32 = bytes[h + 28] as u32 * 256 + bytes[h + 29] as u32;
    let (loop_start_bytes, loop_len_bytes) = if len_words <= 1 {
        (0u32, 0u32)
    } else {
        let start: u32 = if 2 * start_words <= length_bytes {
            2 * start_words
        } else {
            length_bytes
        };
        let room: u32 = length_bytes - start;
        let len: u32 = if 2 * len_words <= room {
            2 * len_words
        } else {
            room
        };
        (start, len)
    };
    Sample { name, length_bytes, finetune, volume, loop_start_bytes, loop_len_bytes }
}

/// Reads the 31 sample headers.
pub fn parse(bytes: &[u8]) -> (res: Result<Vec<Sample>, ParseError>)
    ensures
        match res {
            Ok(v) => bytes@.len() >= 950 && samples_match(v@, bytes@),
            Err(e) => bytes@.len() < 950 && e is TruncatedSampleHeaders,
        },
{
    if bytes.len() < SAMPLE_HEADERS_OFFSET + SAMPLE_COUNT * SAMPLE_HEADER_BYTES {
        return Err(ParseError::TruncatedSampleHeaders);
    }
    let mut out: Vec<Sample> = Vec::new();
    let mut i: usize = 0;
    while i < SAMPLE_COUNT
        invariant
            i <= 31,
            bytes@.len() >= 950,
            out@.len() == i,
            forall|j: int| 0 <= j < i ==> sample_matches(#[trigger] out@[j], bytes@, j),
        decreases 31 - i,
    {
        let s = parse_one(bytes, i);
        out.push(s);
        i = i + 1;
    }
    Ok(out)
}

/// A parsed sample's loop lies inside the sample, lengths are whole words, and
/// a stored loop length of at most one word means no loop at all.
pub proof fn lemma_loop_within_sample(s: Sample, bytes: Seq<u8>, i: int)
    requires
        0 <= i < 31,
        bytes.len() >= 950,
        sample_matches(s, bytes, i),
    ensures
        s.loop_start_bytes + s.loop_len_bytes <= s.length_bytes,
        s.length_bytes % 2 == 0,
        be_u16(bytes, 20 + 30 * i + 28) <= 1 ==> s.loop_start_bytes == 0 && s.loop_len_bytes == 0,
        s.volume <= 64,
        -8 <= s.finetune <= 7,
{
}

/// A stored loop length of more than one word is a sustain loop: when the loop
/// starts inside the sample, the sample loops from twice the stored start for
/// twice the stored length, cut at the sample's end, and the loop is never
/// empty. In particular a loop from the first byte covers
/// `min(2 * len_words, length_bytes)` bytes.
pub proof fn lemma_long_loop_is_a_sustain_loop(s: Sample, bytes: Seq<u8>, i: int)
    requires
        0 <= i < 31,
        bytes.len() >= 950,
        sample_matches(s, bytes, i),
        be_u16(bytes, 20 + 30 * i + 28) > 1,
        2 * be_u16(bytes, 20 + 30 * i + 26) < s.length_bytes,
    ensures
        s.loop_start_bytes == 2 * be_u16(bytes, 20 + 30 * i + 26),
        s.loop_len_bytes == min_int(
            2 * be_u16(bytes, 20 + 30 * i + 28),
            s.length_bytes - 2 * be_u16(bytes, 20 + 30 * i + 26),
        ),
        s.loop_len_bytes > 0,
        s.loop_start_bytes + s.loop_len_bytes <= s.length_bytes,
{
}

} // verus!
