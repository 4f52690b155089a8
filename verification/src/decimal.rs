//! Bytes written as a comma-separated list of decimal numbers, the form in which
//! image data is handed to the grayscale guest function as a string.

use vstd::prelude::*;
use vstd::utf8::encode_utf8;
use crate::split::{lemma_split_on_nonempty, split_on};
use crate::text::{ascii_chars, ascii_string, is_ascii_bytes};

verus! {

pub open spec fn is_digit(b: u8) -> bool {
    48 <= b <= 57
}

pub open spec fn all_digits(d: Seq<u8>) -> bool {
    forall|i: int| 0 <= i < d.len() ==> is_digit(#[trigger] d[i])
}

/// The decimal digits of `v`, without leading zeros, as ASCII bytes.
pub open spec fn decimal_bytes(v: u8) -> Seq<u8> {
    if v < 10 {
        seq![(48 + v) as u8]
    } else if v < 100 {
        seq![(48 + v / 10) as u8, (48 + v % 10) as u8]
    } else {
        seq![(48 + v / 100) as u8, (48 + (v / 10) % 10) as u8, (48 + v % 10) as u8]
    }
}

/// The decimal numbers of `bytes`, separated by commas.
pub open spec fn decimal_list(bytes: Seq<u8>) -> Seq<u8>
    decreases bytes.len(),
{
    if bytes.len() == 0 {
        Seq::empty()
    } else if bytes.len() == 1 {
        decimal_bytes(bytes[0])
    } else {
        decimal_list(bytes.drop_last()) + seq![44u8] + decimal_bytes(bytes.last())
    }
}

/// The number that the decimal digits `d` spell.
pub open spec fn digits_value(d: Seq<u8>) -> nat
    decreases d.len(),
{
    if d.len() == 0 {
        0
    } else {
        10 * digits_value(d.drop_last()) + (d.last() - 48) as nat
    }
}

/// What `str::parse::<u8>` gives for the text `s`: an optional `+`, then one or more
/// decimal digits spelling a number no greater than 255.
pub open spec fn parse_u8(s: Seq<u8>) -> Option<u8> {
    let d = if s.len() > 0 && s[0] == 43 {
        s.drop_first()
    } else {
        s
    };
    parse_digits(d)
}

/// The number spelled by the digits `d`, if there is at least one, all are digits and
/// the number fits in a `u8`.
pub open spec fn parse_digits(d: Seq<u8>) -> Option<u8> {
    if d.len() > 0 && all_digits(d) && digits_value(d) <= 255 {
        Some(digits_value(d) as u8)
    } else {
        None
    }
}

/// The bytes of the list `s`, if every piece parses.
pub open spec fn parse_decimal_list_spec(s: Seq<u8>) -> Option<Seq<u8>> {
    let pieces = split_on(s, 44);
    if forall|i: int| 0 <= i < pieces.len() ==> (#[trigger] parse_u8(pieces[i])) is Some {
        Some(Seq::new(pieces.len(), |i: int| parse_u8(pieces[i]).unwrap()))
    } else {
        None
    }
}

proof fn lemma_digits_value_prefix(d: Seq<u8>, k: int)
    requires
        0 <= k <= d.len(),
    ensures
        digits_value(d.take(k)) <= digits_value(d),
    decreases d.len(),
{
    if k < d.len() {
        lemma_digits_value_prefix(d.drop_last(), k);
        assert(d.drop_last().take(k) =~= d.take(k));
    } else {
        assert(d.take(k) =~= d);
    }
}

/// Parses the piece `s[start..end]` as `str::parse::<u8>` does.
fn parse_u8_at(s: &[u8], start: usize, end: usize) -> (r: Option<u8>)
    requires
        start <= end <= s@.len(),
    ensures
        r == parse_u8(s@.subrange(start as int, end as int)),
{
    let ghost piece = s@.subrange(start as int, end as int);
    let mut i = start;
    if i < end && s[i] == 43 {
        i = i + 1;
    }
    let ghost d = s@.subrange(i as int, end as int);
    assert(d =~= (if piece.len() > 0 && piece[0] == 43 {
        piece.drop_first()
    } else {
        piece
    }));
    if i == end {
        return None;
    }
    let first = i;
    let mut acc: u32 = 0;
    while i < end
        invariant
            first <= i <= end <= s@.len(),
            d == s@.subrange(first as int, end as int),
            acc == digits_value(s@.subrange(first as int, i as int)),
            acc <= 255,
            all_digits(s@.subrange(first as int, i as int)),
            parse_u8(s@.subrange(start as int, end as int)) == parse_digits(d),
            d.len() > 0,
        decreases end - i,
    {
        let b = s[i];
        assert(d[i - first] == b);
        if b < 48 || b > 57 {
            return None;
        }
        let ghost next = s@.subrange(first as int, i + 1);
        assert(next.drop_last() =~= s@.subrange(first as int, i as int));
        acc = acc * 10 + (b - 48) as u32;
        if acc > 255 {
            proof {
                assert(d.take(i + 1 - first) =~= next);
                if all_digits(d) {
                    lemma_digits_value_prefix(d, i + 1 - first);
                }
            }
            return None;
        }
        i = i + 1;
    }
    assert(s@.subrange(first as int, end as int) =~= d);
    Some(acc as u8)
}

/// The bytes listed by `text`, as the grayscale guest function reads its input
/// (`text.split(",").map(|x| x.parse::<u8>())`); `None` if some piece is not a
/// number from 0 to 255.
pub fn parse_decimal_list(text: &str) -> (r: Option<Vec<u8>>)
    ensures
        r is Some <==> parse_decimal_list_spec(encode_utf8(text@)) is Some,
        r matches Some(v) ==> parse_decimal_list_spec(encode_utf8(text@)) == Some(v@),
{
    let s = text.as_bytes();
    let ghost all = s@;
    let mut out: Vec<u8> = Vec::new();
    let mut ok = true;
    let mut start: usize = 0;
    let mut i: usize = 0;
    assert(s@.take(0) =~= Seq::<u8>::empty());
    assert(s@.subrange(0, 0) =~= Seq::<u8>::empty());
    while i < s.len()
        invariant
            s@ == all,
            start <= i <= s@.len(),
            split_on(all.take(i as int), 44).len() == out.len() + 1,
            split_on(all.take(i as int), 44).last() == all.subrange(start as int, i as int),
            ok <==> forall|j: int|
                0 <= j < out.len() ==> (#[trigger] parse_u8(split_on(all.take(i as int), 44)[j])) is Some,
            ok ==> forall|j: int|
                0 <= j < out.len() ==> parse_u8(split_on(all.take(i as int), 44)[j]) == Some(
                    #[trigger] out@[j],
                ),
        decreases s.len() - i,
    {
        let ghost prev = split_on(all.take(i as int), 44);
        assert(all.take(i + 1).drop_last() =~= all.take(i as int));
        assert(all.take(i + 1).last() == all[i as int]);
        if s[i] == 44 {
            let piece = parse_u8_at(s, start, i);
            match piece {
                Some(v) => {
                    out.push(v);
                },
                None => {
                    ok = false;
                    out.push(0);
                },
            }
            proof {
                let next = split_on(all.take(i + 1), 44);
                assert(next == prev.push(Seq::empty()));
                assert(forall|j: int| 0 <= j < out.len() - 1 ==> next[j] == prev[j]);
                assert(next[out.len() - 1] == prev.last());
                assert(all.subrange(i + 1, i + 1) =~= Seq::<u8>::empty());
                if !ok {
                    if piece is None {
                        assert(!(parse_u8(next[out.len() - 1]) is Some));
                    } else {
                        let j = choose|j: int|
                            0 <= j < out.len() - 1 && !(#[trigger] parse_u8(prev[j]) is Some);
                        assert(!(parse_u8(next[j]) is Some));
                    }
                }
            }
            start = i + 1;
        } else {
            proof {
                let next = split_on(all.take(i + 1), 44);
                assert(next == prev.update(prev.len() - 1, prev.last().push(all[i as int])));
                assert(all.subrange(start as int, i + 1) =~= all.subrange(start as int, i as int).push(all[i as int]));
                assert(forall|j: int| 0 <= j < out.len() ==> next[j] == prev[j]);
            }
        }
        i = i + 1;
    }
    assert(all.take(s.len() as int) =~= all);
    let ghost pieces = split_on(all, 44);
    if !ok {
        proof {
            let j = choose|j: int| 0 <= j < out.len() && !(#[trigger] parse_u8(pieces[j]) is Some);
            assert(!(parse_u8(pieces[j]) is Some));
        }
        return None;
    }
    match parse_u8_at(s, start, s.len()) {
        Some(v) => {
            out.push(v);
            assert(out@ =~= Seq::new(pieces.len(), |k: int| parse_u8(pieces[k]).unwrap()));
            Some(out)
        },
        None => {
            assert(!(parse_u8(pieces[pieces.len() - 1]) is Some));
            None
        },
    }
}

/// Appends the decimal digits of `v`.
pub(crate) fn push_decimal(out: &mut Vec<u8>, v: u8)
    ensures
        final(out)@ == old(out)@ + decimal_bytes(v),
{
    if v >= 100 {
        out.push(48 + v / 100);
    }
    if v >= 10 {
        out.push(48 + (v / 10) % 10);
    }
    out.push(48 + v % 10);
    assert(final(out)@ =~= old(out)@ + decimal_bytes(v));
}

/// The bytes of `bytes` as decimal numbers separated by commas, the form
/// `parse_decimal_list` reads.
pub fn to_decimal_list(bytes: &Vec<u8>) -> (s: String)
    ensures
        encode_utf8(s@) == decimal_list(bytes@),
        s@ == ascii_chars(decimal_list(bytes@)),
{
    let mut out: Vec<u8> = Vec::new();
    let mut i: usize = 0;
    assert(bytes@.take(0) =~= Seq::<u8>::empty());
    while i < bytes.len()
        invariant
            i <= bytes.len(),
            out@ == decimal_list(bytes@.take(i as int)),
            is_ascii_bytes(out@),
        decreases bytes.len() - i,
    {
        assert(bytes@.take(i + 1).drop_last() =~= bytes@.take(i as int));
        if i > 0 {
            out.push(44);
        }
        push_decimal(&mut out, bytes[i]);
        i = i + 1;
    }
    assert(bytes@.take(bytes.len() as int) =~= bytes@);
    ascii_string(out)
}

pub open spec fn has_no_comma(d: Seq<u8>) -> bool {
    forall|i: int| 0 <= i < d.len() ==> #[trigger] d[i] != 44
}

proof fn lemma_split_plain(p: Seq<u8>, d: Seq<u8>)
    requires
        has_no_comma(d),
    ensures
        split_on(p + d, 44) == split_on(p, 44).update(
            split_on(p, 44).len() - 1,
            split_on(p, 44).last() + d,
        ),
    decreases d.len(),
{
    lemma_split_on_nonempty(p, 44);
    if d.len() == 0 {
        assert(p + d =~= p);
        assert(split_on(p, 44).last() + d =~= split_on(p, 44).last());
        assert(split_on(p, 44).update(split_on(p, 44).len() - 1, split_on(p, 44).last())
            =~= split_on(p, 44));
    } else {
        let shorter = d.drop_last();
        lemma_split_plain(p, shorter);
        let whole = split_on(p, 44);
        let prev = split_on(p + shorter, 44);
        assert((p + d).drop_last() =~= p + shorter);
        assert((p + d).last() == d.last());
        assert(d.last() != 44);
        assert(split_on(p + d, 44) == prev.update(prev.len() - 1, prev.last().push(d.last())));
        assert(prev.len() == whole.len());
        assert(prev.last() == whole.last() + shorter);
        assert((whole.last() + shorter).push(d.last()) =~= whole.last() + d);
        assert(split_on(p + d, 44) =~= whole.update(whole.len() - 1, whole.last() + d));
    }
}

proof fn lemma_decimal_pieces(bytes: Seq<u8>)
    requires
        bytes.len() > 0,
    ensures
        split_on(decimal_list(bytes), 44) == Seq::new(bytes.len(), |i: int| decimal_bytes(bytes[i])),
    decreases bytes.len(),
{
    let d = decimal_bytes(bytes.last());
    assert(has_no_comma(d));
    if bytes.len() == 1 {
        let e = Seq::<u8>::empty();
        lemma_split_plain(e, d);
        assert(e + d =~= d);
        assert(split_on(decimal_list(bytes), 44) =~= Seq::new(bytes.len(), |i: int| decimal_bytes(bytes[i])));
    } else {
        let prefix = decimal_list(bytes.drop_last());
        let with_comma = prefix + seq![44u8];
        lemma_decimal_pieces(bytes.drop_last());
        assert(with_comma.drop_last() =~= prefix);
        lemma_split_on_nonempty(prefix, 44);
        lemma_split_plain(with_comma, d);
        assert(Seq::<u8>::empty() + d =~= d);
        assert(split_on(decimal_list(bytes), 44) =~= Seq::new(bytes.len(), |i: int| decimal_bytes(bytes[i])));
    }
}

proof fn lemma_parse_decimal_bytes(v: u8)
    ensures
        parse_u8(decimal_bytes(v)) == Some(v),
{
    let d = decimal_bytes(v);
    let e = Seq::<u8>::empty();
    assert(digits_value(e) == 0);
    if v < 10 {
        assert(d.drop_last() =~= e);
    } else if v < 100 {
        let x = d.drop_last();
        assert(x =~= seq![(48 + v / 10) as u8]);
        assert(x.drop_last() =~= e);
        assert(digits_value(x) == v / 10);
    } else {
        let x = d.drop_last();
        let y = x.drop_last();
        assert(y =~= seq![(48 + v / 100) as u8]);
        assert(x =~= seq![(48 + v / 100) as u8, (48 + (v / 10) % 10) as u8]);
        assert(y.drop_last() =~= e);
        assert(digits_value(y) == v / 100);
        assert(x.drop_last() == y);
        assert(digits_value(x) == v / 10);
    }
    assert(all_digits(d));
}

/// The list that `to_decimal_list` writes for non-empty `bytes` parses back to
/// `bytes`. (An empty list is written as the empty text, which does not parse:
/// `str::split` gives one empty piece.)
pub proof fn lemma_decimal_list_round_trip(bytes: Seq<u8>)
    requires
        bytes.len() > 0,
    ensures
        parse_decimal_list_spec(decimal_list(bytes)) == Some(bytes),
{
    lemma_decimal_pieces(bytes);
    let pieces = split_on(decimal_list(bytes), 44);
    assert forall|i: int| 0 <= i < pieces.len() implies (#[trigger] parse_u8(pieces[i])) == Some(bytes[i]) by {
        lemma_parse_decimal_bytes(bytes[i]);
    }
    assert(Seq::new(pieces.len(), |i: int| parse_u8(pieces[i]).unwrap()) =~= bytes);
}

} // verus!
