//! Base64 text of binary data, through the `base64` crate.

use vstd::prelude::*;
use vstd::utf8::encode_utf8;

verus! {

/// The character of the standard Base64 alphabet (RFC 4648) for the 6-bit value `v`.
pub open spec fn base64_digit(v: int) -> u8 {
    if v < 26 {
        (65 + v) as u8
    } else if v < 52 {
        (97 + v - 26) as u8
    } else if v < 62 {
        (48 + v - 52) as u8
    } else if v == 62 {
        43
    } else {
        47
    }
}

/// The standard Base64 encoding of `s` with `=` padding (RFC 4648, section 4): each
/// group of three bytes becomes four characters; a final group of one or two bytes
/// becomes two or three characters followed by `=` to make four.
pub open spec fn base64_standard(s: Seq<u8>) -> Seq<u8>
    decreases s.len(),
{
    if s.len() == 0 {
        Seq::empty()
    } else {
        let a = s[0] as int;
        let b = if s.len() > 1 { s[1] as int } else { 0 };
        let c = if s.len() > 2 { s[2] as int } else { 0 };
        let first = base64_digit(a / 4);
        let second = base64_digit((a % 4) * 16 + b / 16);
        let third = base64_digit((b % 16) * 4 + c / 64);
        let fourth = base64_digit(c % 64);
        if s.len() == 1 {
            seq![first, second, 61u8, 61u8]
        } else if s.len() == 2 {
            seq![first, second, third, 61u8]
        } else {
            seq![first, second, third, fourth] + base64_standard(s.subrange(3, s.len() as int))
        }
    }
}

/// `base64::encode`, which encodes with the `STANDARD` configuration: the standard
/// alphabet with padding, as the crate's documentation states.
#[verifier::external_body]
pub(crate) fn base64_encode(input: &[u8]) -> (r: String)
    ensures
        encode_utf8(r@) == base64_standard(input@),
{
    base64::encode(input)
}

/// Base64 text is four characters for every started group of three bytes.
pub proof fn lemma_base64_length(s: Seq<u8>)
    ensures
        base64_standard(s).len() == 4 * ((s.len() + 2) / 3),
    decreases s.len(),
{
    if s.len() >= 3 {
        lemma_base64_length(s.subrange(3, s.len() as int));
    }
}

} // verus!
