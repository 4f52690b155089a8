//! Reading the output of an image classifier: the strongest class, its label, and
//! the sentence that reports it.

use vstd::prelude::*;
use vstd::utf8::{decode_utf8, encode_utf8, is_char_boundary, length_of_first_scalar, pop_first_scalar, valid_utf8};
use vstd::string::StringExecFns;
use crate::decimal::{decimal_bytes, push_decimal};
use crate::split::{lemma_split_on_nonempty, split_on};
use crate::text::{ascii_chars, ascii_string, string_from_utf8};

verus! {

/// The greatest confidence in `res`, 0 for an empty `res`.
pub open spec fn max_confidence(res: Seq<u8>) -> u8
    decreases res.len(),
{
    if res.len() == 0 {
        0
    } else {
        let m = max_confidence(res.drop_last());
        if res.last() > m {
            res.last()
        } else {
            m
        }
    }
}

/// The first index at which `res` reaches its greatest confidence, or -1 when every
/// confidence is 0 (or `res` is empty).
pub open spec fn strongest_index(res: Seq<u8>) -> int
    decreases res.len(),
{
    if res.len() == 0 {
        -1
    } else if res.last() > max_confidence(res.drop_last()) {
        res.len() - 1
    } else {
        strongest_index(res.drop_last())
    }
}

/// The class with the greatest confidence, as its index (-1 when no confidence is
/// above 0) and that confidence.
pub fn strongest_class(res: &Vec<u8>) -> (r: (i32, u8))
    requires
        res.len() <= i32::MAX,
    ensures
        r.0 == strongest_index(res@),
        r.1 == max_confidence(res@),
{
    let mut i: usize = 0;
    let mut max_index: i32 = -1;
    let mut max_value: u8 = 0;
    assert(res@.take(0) =~= Seq::<u8>::empty());
    while i < res.len()
        invariant
            i <= res.len() <= i32::MAX,
            max_index == strongest_index(res@.take(i as int)),
            max_value == max_confidence(res@.take(i as int)),
        decreases res.len() - i,
    {
        assert(res@.take(i + 1).drop_last() =~= res@.take(i as int));
        let cur = res[i];
        if cur > max_value {
            max_value = cur;
            max_index = i as i32;
        }
        i = i + 1;
    }
    assert(res@.take(res.len() as int) =~= res@);
    (max_index, max_value)
}

/// The strongest class is the first one with the greatest confidence, every
/// confidence is at most that one, and no class is named when all are 0.
pub proof fn lemma_strongest_is_first_maximum(res: Seq<u8>)
    ensures
        forall|j: int| 0 <= j < res.len() ==> res[j] <= max_confidence(res),
        max_confidence(res) == 0 <==> strongest_index(res) == -1,
        max_confidence(res) > 0 ==> {
            &&& 0 <= strongest_index(res) < res.len()
            &&& res[strongest_index(res)] == max_confidence(res)
            &&& forall|j: int| 0 <= j < strongest_index(res) ==> res[j] < max_confidence(res)
        },
    decreases res.len(),
{
    if res.len() > 0 {
        let p = res.drop_last();
        lemma_strongest_is_first_maximum(p);
        assert forall|j: int| 0 <= j < p.len() implies #[trigger] p[j] == res[j] by {}
        assert forall|j: int| 0 <= j < res.len() implies res[j] <= max_confidence(res) by {
            if j < p.len() {
                assert(p[j] == res[j]);
            }
        }
        if res.last() > max_confidence(p) {
            assert forall|j: int| 0 <= j < strongest_index(res) implies res[j] < max_confidence(res) by {
                assert(p[j] == res[j]);
                assert(p[j] <= max_confidence(p));
            }
        } else if max_confidence(res) > 0 {
            let m = strongest_index(p);
            assert(res[m] == p[m]);
            assert forall|j: int| 0 <= j < strongest_index(res) implies res[j] < max_confidence(res) by {
                assert(p[j] == res[j]);
            }
        }
    }
}

/// A line without the carriage return that ends it.
pub open spec fn strip_cr(p: Seq<u8>) -> Seq<u8> {
    if p.len() > 0 && p.last() == 13 {
        p.drop_last()
    } else {
        p
    }
}

/// The lines of `s`, as `str::lines` gives them: the pieces between newlines, a
/// final empty piece left out, and one carriage return taken from the end of each
/// piece that a newline ends.
pub open spec fn text_lines(s: Seq<u8>) -> Seq<Seq<u8>> {
    let p = split_on(s, 10);
    let n = p.len() as int;
    let count = if p.last().len() == 0 {
        n - 1
    } else {
        n
    };
    Seq::new(count as nat, |i: int| if i < n - 1 { strip_cr(p[i]) } else { p[i] })
}

/// The number of lines of `text`.
pub fn line_count(text: &str) -> (n: usize)
    ensures
        n == text_lines(encode_utf8(text@)).len(),
{
    let s = text.as_bytes();
    let ghost all = s@;
    let mut count: usize = 0;
    let mut i: usize = 0;
    while i < s.len()
        invariant
            s@ == all,
            i <= s.len(),
            count <= i,
            (i > 0 && all[i - 1] != 10) ==> count < i,
            split_on(all.take(i as int), 10).len() == count + 1,
        decreases s.len() - i,
    {
        assert(all.take(i + 1).drop_last() =~= all.take(i as int));
        if s[i] == 10 {
            count = count + 1;
        }
        i = i + 1;
    }
    assert(all.take(s.len() as int) =~= all);
    proof {
        lemma_split_on_nonempty(all, 10);
        if all.len() > 0 {
            lemma_split_on_nonempty(all.drop_last(), 10);
        }
    }
    if s.len() == 0 || s[s.len() - 1] == 10 {
        assert(split_on(all, 10).last().len() == 0);
        count
    } else {
        assert(split_on(all, 10).last().len() > 0);
        count + 1
    }
}

proof fn lemma_ascii_boundary(bytes: Seq<u8>, i: int)
    requires
        valid_utf8(bytes),
        0 <= i < bytes.len(),
        bytes[i] < 0x80,
    ensures
        is_char_boundary(bytes, i),
        is_char_boundary(bytes, i + 1),
    decreases bytes.len(),
{
    vstd::utf8::is_char_boundary_iff_not_is_continuation_byte(bytes, i);
    reveal_with_fuel(is_char_boundary, 2);
    let l = length_of_first_scalar(bytes);
    let rest = pop_first_scalar(bytes);
    if i > 0 {
        assert(i >= l);
        assert(rest[i - l] == bytes[i]);
        lemma_ascii_boundary(rest, i - l);
    }
}

/// Where line `k` of the bytes `s` lies: it starts at the beginning of `s` or after a
/// newline, and ends at the end of `s` or before an ASCII byte.
fn find_line(s: &[u8], k: usize) -> (r: (usize, usize))
    requires
        k < text_lines(s@).len(),
    ensures
        r.0 <= r.1 <= s@.len(),
        s@.subrange(r.0 as int, r.1 as int) == text_lines(s@)[k as int],
        r.0 > 0 ==> s@[r.0 - 1] == 10,
        r.1 < s@.len() ==> s@[r.1 as int] < 0x80,
{
    let ghost all = s@;
    let mut count: usize = 0;
    let mut start: usize = 0;
    let mut line_start: usize = 0;
    let mut line_end: usize = 0;
    let mut i: usize = 0;
    assert(all.take(0) =~= Seq::<u8>::empty());
    assert(all.subrange(0, 0) =~= Seq::<u8>::empty());
    while i < s.len()
        invariant
            s@ == all,
            start <= i <= s.len(),
            count <= i,
            split_on(all.take(i as int), 10).len() == count + 1,
            split_on(all.take(i as int), 10).last() == all.subrange(start as int, i as int),
            start > 0 ==> all[start - 1] == 10,
            count > k ==> {
                &&& line_start <= line_end < start
                &&& all[line_end as int] == 10
                &&& (line_start > 0 ==> all[line_start - 1] == 10)
                &&& split_on(all.take(i as int), 10)[k as int] == all.subrange(
                    line_start as int,
                    line_end as int,
                )
            },
        decreases s.len() - i,
    {
        assert(all.take(i + 1).drop_last() =~= all.take(i as int));
        assert(all.take(i + 1).last() == all[i as int]);
        if s[i] == 10 {
            if count == k {
                line_start = start;
                line_end = i;
            }
            count = count + 1;
            start = i + 1;
            assert(all.subrange(start as int, i + 1) =~= Seq::<u8>::empty());
        } else {
            assert(all.subrange(start as int, i + 1) =~= all.subrange(start as int, i as int).push(
                all[i as int],
            ));
        }
        i = i + 1;
    }
    assert(all.take(s.len() as int) =~= all);
    if count > k {
        if line_end > line_start && s[line_end - 1] == 13 {
            assert(all.subrange(line_start as int, line_end - 1) =~= strip_cr(
                all.subrange(line_start as int, line_end as int),
            ));
            (line_start, line_end - 1)
        } else {
            (line_start, line_end)
        }
    } else {
        (start, s.len())
    }
}

/// A well-formed UTF-8 string cut at the start of a line and before an ASCII byte (or
/// at its end) is well-formed UTF-8.
proof fn lemma_line_valid(all: Seq<u8>, a: int, b: int)
    requires
        valid_utf8(all),
        0 <= a <= b <= all.len(),
        a > 0 ==> all[a - 1] == 10,
        b < all.len() ==> all[b] < 0x80,
    ensures
        valid_utf8(all.subrange(a, b)),
{
    if a > 0 {
        lemma_ascii_boundary(all, a - 1);
    } else {
        vstd::utf8::is_char_boundary_start_end_of_seq(all);
    }
    vstd::utf8::valid_utf8_split(all, a);
    let tail = all.subrange(a, all.len() as int);
    if b < all.len() {
        vstd::utf8::is_char_boundary_iff_not_is_continuation_byte(tail, b - a);
    } else {
        vstd::utf8::is_char_boundary_start_end_of_seq(tail);
    }
    vstd::utf8::valid_utf8_split(tail, b - a);
    assert(tail.subrange(0, b - a) =~= all.subrange(a, b));
}

/// The line numbered `k` (from 0) of `text`.
pub fn line_at(text: &str, k: usize) -> (r: String)
    requires
        k < text_lines(encode_utf8(text@)).len(),
    ensures
        encode_utf8(r@) == text_lines(encode_utf8(text@))[k as int],
{
    let s = text.as_bytes();
    let (a, b) = find_line(s, k);
    proof {
        vstd::utf8::encode_utf8_valid_utf8(text@);
        lemma_line_valid(s@, a as int, b as int);
    }
    let mut bytes: Vec<u8> = Vec::new();
    let mut j = a;
    while j < b
        invariant
            a <= j <= b <= s@.len(),
            bytes@ == s@.subrange(a as int, j as int),
        decreases b - j,
    {
        bytes.push(s[j]);
        assert(bytes@ =~= s@.subrange(a as int, j + 1));
        j = j + 1;
    }
    proof {
        vstd::utf8::decode_utf8_encode_utf8(bytes@);
    }
    match string_from_utf8(bytes) {
        Some(line) => line,
        None => {
            proof {
                assert(false);
            }
            String::new()
        },
    }
}

/// The sentence that reports class `class_name` found with `confidence` out of 255.
pub fn detection_message(class_name: &str, confidence: u8) -> (r: String)
    ensures
        r@ == class_name@ + " is detected with "@ + ascii_chars(decimal_bytes(confidence))
            + "/255 confidence"@,
{
    let mut r = String::from_str(class_name);
    r.append(" is detected with ");
    let mut digits: Vec<u8> = Vec::new();
    push_decimal(&mut digits, confidence);
    assert(digits@ =~= decimal_bytes(confidence));
    let number = ascii_string(digits);
    r.append(number.as_str());
    r.append("/255 confidence");
    r
}

/// The line of the label file that names the strongest class: line 0 also when no
/// class has a confidence above 0.
pub open spec fn label_index(res: Seq<u8>) -> int {
    if strongest_index(res) < 0 {
        0
    } else {
        strongest_index(res)
    }
}

/// The report for the classifier output `res`, the label of the strongest class being
/// taken from the lines of `labels`.
pub fn classification_message(res: &Vec<u8>, labels: &str) -> (r: String)
    requires
        res.len() <= i32::MAX,
        label_index(res@) < text_lines(encode_utf8(labels@)).len(),
    ensures
        r@ == decode_utf8(text_lines(encode_utf8(labels@))[label_index(res@)]) + " is detected with "@
            + ascii_chars(decimal_bytes(max_confidence(res@))) + "/255 confidence"@,
{
    let (index, confidence) = strongest_class(res);
    let k: usize = if index < 0 {
        0
    } else {
        index as usize
    };
    let name = line_at(labels, k);
    proof {
        vstd::utf8::encode_utf8_decode_utf8(name@);
    }
    detection_message(name.as_str(), confidence)
}

} // verus!
