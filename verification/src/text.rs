//! Conversions between bytes, characters and strings that `std` performs.

use vstd::prelude::*;
use vstd::utf8::{decode_utf8, encode_utf8, pop_first_scalar, valid_utf8};

verus! {

/// The Unicode scalar values: every `u32` but the surrogates and those above 0x10FFFF.
pub open spec fn is_char_value(v: u32) -> bool {
    v < 0xD800 || (0xE000 <= v && v <= 0x10FFFF)
}

/// `char::from_u32`: the `char` with code `v` if `v` is a Unicode scalar value, else
/// `None`, as its documentation states.
#[verifier::external_body]
pub(crate) fn char_from_u32(v: u32) -> (r: Option<char>)
    ensures
        r == (if is_char_value(v) { Some(v as char) } else { None::<char> }),
{
    char::from_u32(v)
}

/// `String::from_utf8`: a string exactly when `bytes` is well-formed UTF-8, and then
/// the string whose UTF-8 encoding is `bytes`, as its documentation states.
#[verifier::external_body]
pub(crate) fn string_from_utf8(bytes: Vec<u8>) -> (r: Option<String>)
    ensures
        r is Some <==> valid_utf8(bytes@),
        r matches Some(s) ==> s@ == decode_utf8(bytes@),
{
    String::from_utf8(bytes).ok()
}

/// What `String::from_utf8_lossy` makes of `bytes`: a function of the bytes alone.
pub uninterp spec fn lossy_utf8(bytes: Seq<u8>) -> Seq<char>;

/// `String::from_utf8_lossy`: on well-formed UTF-8, the string it encodes; on other
/// input each invalid sequence becomes U+FFFD. Where the replacements fall is left to
/// the name `lossy_utf8`.
#[verifier::external_body]
pub(crate) fn string_from_utf8_lossy(bytes: &Vec<u8>) -> (r: String)
    ensures
        r@ == lossy_utf8(bytes@),
        valid_utf8(bytes@) ==> r@ == decode_utf8(bytes@),
{
    String::from_utf8_lossy(bytes.as_slice()).into_owned()
}

/// Bytes below 0x80, each a character of its own in UTF-8.
pub open spec fn is_ascii_bytes(bytes: Seq<u8>) -> bool {
    forall|i: int| 0 <= i < bytes.len() ==> #[trigger] bytes[i] < 0x80
}

/// The characters whose codes are the ASCII `bytes`.
pub open spec fn ascii_chars(bytes: Seq<u8>) -> Seq<char> {
    bytes.map_values(|b: u8| b as char)
}

pub proof fn lemma_ascii_decode(bytes: Seq<u8>)
    requires
        is_ascii_bytes(bytes),
    ensures
        valid_utf8(bytes),
        decode_utf8(bytes) == ascii_chars(bytes),
    decreases bytes.len(),
{
    if bytes.len() > 0 {
        let b = bytes[0];
        assert(b < 0x80 ==> (b & 0x7f) == b) by (bit_vector);
        let rest = bytes.drop_first();
        assert(pop_first_scalar(bytes) =~= rest);
        lemma_ascii_decode(rest);
        assert(decode_utf8(bytes) =~= ascii_chars(bytes));
    }
}

/// The string made of the ASCII characters `bytes`.
pub fn ascii_string(bytes: Vec<u8>) -> (s: String)
    requires
        is_ascii_bytes(bytes@),
    ensures
        s@ == ascii_chars(bytes@),
        encode_utf8(s@) == bytes@,
{
    proof {
        lemma_ascii_decode(bytes@);
        vstd::utf8::decode_utf8_encode_utf8(bytes@);
    }
    let ghost b = bytes@;
    match string_from_utf8(bytes) {
        Some(s) => s,
        None => {
            proof {
                assert(false);
            }
            String::new()
        },
    }
}

pub proof fn lemma_encode_utf8_injective(a: Seq<char>, b: Seq<char>)
    requires
        encode_utf8(a) == encode_utf8(b),
    ensures
        a == b,
{
    vstd::utf8::encode_utf8_decode_utf8(a);
    vstd::utf8::encode_utf8_decode_utf8(b);
}

/// Whether two strings are equal.
pub fn str_eq(a: &str, b: &str) -> (r: bool)
    ensures
        r == (a@ == b@),
{
    let x = a.as_bytes();
    let y = b.as_bytes();
    if x.len() != y.len() {
        return false;
    }
    let mut i: usize = 0;
    while i < x.len()
        invariant
            i <= x.len(),
            x.len() == y.len(),
            x@ == encode_utf8(a@),
            y@ == encode_utf8(b@),
            forall|j: int| 0 <= j < i ==> x@[j] == y@[j],
        decreases x.len() - i,
    {
        if x[i] != y[i] {
            return false;
        }
        i = i + 1;
    }
    assert(x@ =~= y@);
    proof {
        lemma_encode_utf8_injective(a@, b@);
    }
    true
}

} // verus!
