//! Fixed-width text fields (song and sample names): the bytes decoded as UTF-8,
//! invalid sequences replaced, then trailing NUL padding removed.
use vstd::prelude::*;
use vstd::string::*;
use vstd::utf8::{decode_utf8, valid_utf8};

verus! {

/// The characters that `String::from_utf8_lossy` makes of `bytes`.
pub uninterp spec fn utf8_lossy(bytes: Seq<u8>) -> Seq<char>;

/// `s` without its trailing NUL characters.
pub open spec fn trim_nul(s: Seq<char>) -> Seq<char>
    decreases s.len(),
{
    if s.len() > 0 && s.last() == '\0' {
        trim_nul(s.drop_last())
    } else {
        s
    }
}

/// The name a fixed-width, NUL-padded text field holds.
pub open spec fn text_field(bytes: Seq<u8>) -> Seq<char> {
    trim_nul(utf8_lossy(bytes))
}

/// Wraps `String::from_utf8_lossy`. Claimed of it: the result depends on the
/// bytes alone (it is named `utf8_lossy`), and bytes that are valid UTF-8 are
/// decoded unchanged. How invalid sequences are replaced is left unsaid.
#[verifier::external_body]
fn decode_utf8_lossy(bytes: &[u8]) -> (s: String)
    ensures
        s@ == utf8_lossy(bytes@),
        valid_utf8(bytes@) ==> s@ == decode_utf8(bytes@),
{
    String::from_utf8_lossy(bytes).into_owned()
}

/// `s` with its trailing NUL characters removed.
pub fn trim_trailing_nuls(s: &str) -> (t: String)
    ensures
        t@ == trim_nul(s@),
{
    let mut end: usize = s.unicode_len();
    let mut done = false;
    proof {
        assert(s@.subrange(0, end as int) =~= s@);
    }
    while !done && end > 0
        invariant
            end <= s@.len(),
            trim_nul(s@) == trim_nul(s@.subrange(0, end as int)),
            done ==> end > 0 && s@[end - 1] != '\0',
        decreases 2 * end + if done {
            0int
        } else {
            1int
        },
    {
        let c = s.get_char(end - 1);
        if c != '\0' {
            done = true;
        } else {
            proof {
                assert(s@.subrange(0, end as int).drop_last() =~= s@.subrange(0, end - 1));
            }
            end = end - 1;
        }
    }
    proof {
        assert(trim_nul(s@.subrange(0, end as int)) == s@.subrange(0, end as int));
    }
    s.substring_char(0, end).to_owned()
}

/// Decodes a fixed-width text field: lossy UTF-8, trailing NULs trimmed.
pub fn decode_text_field(bytes: &[u8]) -> (t: String)
    ensures
        t@ == text_field(bytes@),
        valid_utf8(bytes@) ==> t@ == trim_nul(decode_utf8(bytes@)),
{
    let full = decode_utf8_lossy(bytes);
    trim_trailing_nuls(full.as_str())
}

} // verus!
