//! Song name, song length, restart position, order table and the `M.K.` tag.
use vstd::prelude::*;

use super::text::{decode_text_field, text_field, trim_nul};
use vstd::utf8::{decode_utf8, valid_utf8};
use super::{Header, ParseError, ORDER_LEN, ORDER_OFFSET, RESTART_OFFSET, SONG_LENGTH_OFFSET, TAG_OFFSET};

verus! {

/// The four tag bytes at offset 1080 spell `M.K.`.
pub open spec fn has_mk_tag(bytes: Seq<u8>) -> bool {
    &&& bytes.len() >= 1084
    &&& bytes[1080] == 0x4D
    &&& bytes[1081] == 0x2E
    &&& bytes[1082] == 0x4B
    &&& bytes[1083] == 0x2E
}

/// The error that header parsing reports for `bytes`, if any: a file too short
/// to hold the tag, or a tag other than `M.K.`.
pub open spec fn header_error(bytes: Seq<u8>) -> Option<ParseError> {
    if bytes.len() < 1084 {
        Some(ParseError::MissingTag)
    } else if !has_mk_tag(bytes) {
        Some(
            ParseError::UnsupportedTag {
                tag: [bytes[1080], bytes[1081], bytes[1082], bytes[1083]],
            },
        )
    } else {
        None
    }
}

/// `h` is the header that `bytes` holds.
pub open spec fn header_matches(h: Header, bytes: Seq<u8>) -> bool {
    &&& h.name@ == text_field(bytes.subrange(0, 20))
    &&& valid_utf8(bytes.subrange(0, 20)) ==> h.name@ == trim_nul(decode_utf8(bytes.subrange(0, 20)))
    &&& h.song_length == bytes[950]
    &&& h.restart_position == bytes[951]
    &&& h.order@ == bytes.subrange(952, 1080)
}

/// Reads the song header. Only `M.K.` modules are accepted.
pub fn parse(bytes: &[u8]) -> (res: Result<Header, ParseError>)
    ensures
        match res {
            Ok(h) => header_error(bytes@) is None && header_matches(h, bytes@),
            Err(e) => header_error(bytes@) == Some(e),
        },
{
    if bytes.len() < TAG_OFFSET + 4 {
        return Err(ParseError::MissingTag);
    }
    let t0 = bytes[TAG_OFFSET];
    let t1 = bytes[TAG_OFFSET + 1];
    let t2 = bytes[TAG_OFFSET + 2];
    let t3 = bytes[TAG_OFFSET + 3];
    if !(t0 == 0x4D && t1 == 0x2E && t2 == 0x4B && t3 == 0x2E) {
        return Err(ParseError::UnsupportedTag { tag: [t0, t1, t2, t3] });
    }
    let name_bytes = slice_range(bytes, 0, 20);
    let name = decode_text_field(name_bytes.as_slice());
    let song_length = bytes[SONG_LENGTH_OFFSET];
    let restart_position = bytes[RESTART_OFFSET];
    let order = slice_range(bytes, ORDER_OFFSET, ORDER_OFFSET + ORDER_LEN);
    Ok(Header { name, song_length, restart_position, order })
}

/// The bytes `bytes[start..end]`, copied.
pub fn slice_range(bytes: &[u8], start: usize, end: usize) -> (out: Vec<u8>)
    requires
        start <= end <= bytes@.len(),
    ensures
        out@ == bytes@.subrange(start as int, end as int),
{
    let mut out: Vec<u8> = Vec::new();
    let mut i = start;
    while i < end
        invariant
            start <= i <= end <= bytes@.len(),
            out@ == bytes@.subrange(start as int, i as int),
        decreases end - i,
    {
        out.push(bytes[i]);
        proof {
            assert(out@ =~= bytes@.subrange(start as int, i + 1));
        }
        i = i + 1;
    }
    out
}

} // verus!
