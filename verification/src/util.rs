//! Text helpers of the standard library, with what their documentation states of them.

use vstd::prelude::*;
use vstd::utf8::{decode_utf8, valid_utf8};

verus! {

/// Whether `c` has the Unicode `White_Space` property, the whitespace of `str::trim_end`.
pub open spec fn spec_is_white_space(c: char) -> bool {
    let v = c as u32;
    ||| 0x09 <= v <= 0x0D
    ||| v == 0x20
    ||| v == 0x85
    ||| v == 0xA0
    ||| v == 0x1680
    ||| 0x2000 <= v <= 0x200A
    ||| v == 0x2028
    ||| v == 0x2029
    ||| v == 0x202F
    ||| v == 0x205F
    ||| v == 0x3000
}

/// `s` without the run of `c` at its end.
pub open spec fn spec_trim_end_matching(s: Seq<char>, c: char) -> Seq<char>
    decreases s.len(),
{
    if s.len() > 0 && s.last() == c {
        spec_trim_end_matching(s.drop_last(), c)
    } else {
        s
    }
}

/// `s` without the run of whitespace at its end.
pub open spec fn spec_trim_end_white_space(s: Seq<char>) -> Seq<char>
    decreases s.len(),
{
    if s.len() > 0 && spec_is_white_space(s.last()) {
        spec_trim_end_white_space(s.drop_last())
    } else {
        s
    }
}

/// The characters that `bytes` encode in UTF-8, or nothing when they are not valid UTF-8.
pub open spec fn spec_utf8_or_empty(bytes: Seq<u8>) -> Seq<char> {
    if valid_utf8(bytes) {
        decode_utf8(bytes)
    } else {
        Seq::empty()
    }
}

/// Calls `std::str::from_utf8`, whose documentation states that it succeeds exactly on valid
/// UTF-8 and then returns the string slice whose bytes are `bytes`.
#[verifier::external_body]
pub(crate) fn str_from_utf8(bytes: &[u8]) -> (r: Option<&str>)
    ensures
        r is Some <==> valid_utf8(bytes@),
        r matches Some(s) ==> s@ == decode_utf8(bytes@),
{
    std::str::from_utf8(bytes).ok()
}

/// Calls `str::trim_end_matches` with a character, whose documentation states that it returns
/// the slice with every trailing occurrence of that character removed.
#[verifier::external_body]
pub(crate) fn trim_end_matching(s: &str, c: char) -> (r: &str)
    ensures
        r@ == spec_trim_end_matching(s@, c),
{
    s.trim_end_matches(c)
}

/// Calls `str::trim_end`, whose documentation states that it returns the slice with trailing
/// characters of the Unicode `White_Space` property removed.
#[verifier::external_body]
pub(crate) fn trim_end_white_space(s: &str) -> (r: &str)
    ensures
        r@ == spec_trim_end_white_space(s@),
{
    s.trim_end()
}

/// Trimming a character off the end of `s` followed by copies of it leaves `s` when `s` does
/// not end with it.
pub proof fn lemma_trim_end_matching_padding(s: Seq<char>, c: char, n: nat)
    requires
        s.len() == 0 || s.last() != c,
    ensures
        spec_trim_end_matching(s + Seq::new(n, |i: int| c), c) == s,
    decreases n,
{
    if n == 0 {
        assert(s + Seq::new(n, |i: int| c) =~= s);
    } else {
        let padded = s + Seq::new(n, |i: int| c);
        assert(padded.drop_last() =~= s + Seq::new((n - 1) as nat, |i: int| c));
        lemma_trim_end_matching_padding(s, c, (n - 1) as nat);
    }
}

} // verus!
