//! Boundary to the outside text codec: the remote speaks a legacy
//! double-byte encoding, decoded only when a row is rendered or searched.

use vstd::prelude::*;
use vstd::string::StrSliceExecFns;
use encoding::types::Encoding;

verus! {

/// What the remote's double-byte text codec makes of a byte run. The
/// decoding table is the outside crate's; the result is named, not restated.
pub uninterp spec fn big5_decoded(bytes: Seq<u8>) -> Seq<char>;

/// Relies on encoding's `BIG5_2003.decode` with `DecoderTrap::Ignore`: a
/// pure, table-driven decode of the byte run that drops undecodable runs
/// instead of failing; its result depends on the bytes alone.
#[verifier::external_body]
pub fn decode_big5(bytes: &[u8]) -> (r: String)
    ensures
        r@ == big5_decoded(bytes@),
{
    match encoding::all::BIG5_2003.decode(bytes, encoding::types::DecoderTrap::Ignore) {
        Ok(s) => s,
        Err(_) => String::new(),
    }
}

/// The characters of a string slice, in order.
pub fn chars_of(s: &str) -> (r: Vec<char>)
    ensures
        r@ == s@,
{
    let n = s.unicode_len();
    let mut v: Vec<char> = Vec::new();
    let mut i: usize = 0;
    while i < n
        invariant
            i <= n,
            n == s@.len(),
            v@ == s@.take(i as int),
        decreases n - i,
    {
        let c = s.get_char(i);
        v.push(c);
        proof {
            assert(s@.take(i + 1) =~= s@.take(i as int).push(s@[i as int]));
        }
        i += 1;
    }
    proof {
        assert(s@.take(n as int) =~= s@);
    }
    v
}

/// `needle` occurs contiguously somewhere in `hay`.
pub open spec fn contains_seq(hay: Seq<char>, needle: Seq<char>) -> bool {
    exists|i: int|
        0 <= i <= hay.len() - needle.len() && #[trigger] hay.subrange(i, i + needle.len())
            == needle
}

/// Substring search over character sequences.
pub fn seq_contains(hay: &Vec<char>, needle: &Vec<char>) -> (r: bool)
    ensures
        r == contains_seq(hay@, needle@),
{
    if needle.len() == 0 {
        proof {
            assert(hay@.subrange(0, 0 + needle@.len() as int) =~= needle@);
        }
        return true;
    }
    if needle.len() > hay.len() {
        return false;
    }
    let hay_len = hay.len();
    let needle_len = needle.len();
    let end = hay_len - needle_len;
    let mut i: usize = 0;
    while i <= end
        invariant
            i <= end + 1,
            1 <= needle_len,
            hay_len == hay@.len(),
            needle_len == needle@.len(),
            end == hay@.len() - needle@.len(),
            needle@.len() <= hay@.len(),
            forall|k: int|
                0 <= k < i ==> #[trigger] hay@.subrange(k, k + needle@.len()) != needle@,
        decreases end + 1 - i,
    {
        let mut j: usize = 0;
        while j < needle.len() && hay[i + j] == needle[j]
            invariant
                i <= end,
                hay_len == hay@.len(),
                needle_len == needle@.len(),
                end == hay@.len() - needle@.len(),
                j <= needle_len,
                forall|k: int| 0 <= k < j ==> hay@[i + k] == needle@[k],
            decreases needle@.len() - j,
        {
            j += 1;
        }
        if j == needle.len() {
            proof {
                assert(hay@.subrange(i as int, i + needle@.len()) =~= needle@);
            }
            return true;
        }
        proof {
            assert(hay@.subrange(i as int, i + needle@.len())[j as int] == hay@[i + j]);
        }
        i += 1;
    }
    false
}

} // verus!
