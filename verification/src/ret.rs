//! Values returned by a guest function: the table of results it hands back and how
//! each result is decoded from guest memory.

use vstd::prelude::*;
use vstd::utf8::{decode_utf8, valid_utf8};
use crate::bytes::{copy_bytes, le_bytes, le_value, lemma_le_bytes_len, lemma_le_round_trip, lemma_le_value_bound, pow256, read_le};
use crate::text::{char_from_u32, is_char_value, lossy_utf8, string_from_utf8, string_from_utf8_lossy};
use crate::word::LeWord;

verus! {

/// The type tags a guest attaches to its results.
#[derive(Debug, PartialEq, Eq)]
pub enum RetTypes {
    U8,
    I8,
    U16,
    I16,
    U32,
    I32,
    U64,
    I64,
    F32,
    F64,
    Bool,
    Char,
    U8Array,
    I8Array,
    U16Array,
    I16Array,
    U32Array,
    I32Array,
    U64Array,
    I64Array,
    String,
}

/// The type named by a numeric tag.
pub open spec fn ret_type_of(code: i32) -> Option<RetTypes> {
    if code == 1 {
        Some(RetTypes::U8)
    } else if code == 2 {
        Some(RetTypes::I8)
    } else if code == 3 {
        Some(RetTypes::U16)
    } else if code == 4 {
        Some(RetTypes::I16)
    } else if code == 5 {
        Some(RetTypes::U32)
    } else if code == 6 {
        Some(RetTypes::I32)
    } else if code == 7 {
        Some(RetTypes::U64)
    } else if code == 8 {
        Some(RetTypes::I64)
    } else if code == 9 {
        Some(RetTypes::F32)
    } else if code == 10 {
        Some(RetTypes::F64)
    } else if code == 11 {
        Some(RetTypes::Bool)
    } else if code == 12 {
        Some(RetTypes::Char)
    } else if code == 21 {
        Some(RetTypes::U8Array)
    } else if code == 22 {
        Some(RetTypes::I8Array)
    } else if code == 23 {
        Some(RetTypes::U16Array)
    } else if code == 24 {
        Some(RetTypes::I16Array)
    } else if code == 25 {
        Some(RetTypes::U32Array)
    } else if code == 26 {
        Some(RetTypes::I32Array)
    } else if code == 27 {
        Some(RetTypes::U64Array)
    } else if code == 28 {
        Some(RetTypes::I64Array)
    } else if code == 31 {
        Some(RetTypes::String)
    } else {
        None
    }
}

impl RetTypes {
    /// The type named by `code`, if any.
    pub fn from_i32(code: i32) -> (r: Option<RetTypes>)
        ensures
            r == ret_type_of(code),
    {
        match code {
            1 => Some(RetTypes::U8),
            2 => Some(RetTypes::I8),
            3 => Some(RetTypes::U16),
            4 => Some(RetTypes::I16),
            5 => Some(RetTypes::U32),
            6 => Some(RetTypes::I32),
            7 => Some(RetTypes::U64),
            8 => Some(RetTypes::I64),
            9 => Some(RetTypes::F32),
            10 => Some(RetTypes::F64),
            11 => Some(RetTypes::Bool),
            12 => Some(RetTypes::Char),
            21 => Some(RetTypes::U8Array),
            22 => Some(RetTypes::I8Array),
            23 => Some(RetTypes::U16Array),
            24 => Some(RetTypes::I16Array),
            25 => Some(RetTypes::U32Array),
            26 => Some(RetTypes::I32Array),
            27 => Some(RetTypes::U64Array),
            28 => Some(RetTypes::I64Array),
            31 => Some(RetTypes::String),
            _ => None,
        }
    }
}

/// A decoded result. The floating-point variants carry the IEEE 754 bit pattern
/// (`f32::from_bits`, `f64::from_bits` give the number).
#[derive(Debug, PartialEq, Eq)]
pub enum RetValue {
    U8(u8),
    I8(i8),
    U16(u16),
    I16(i16),
    U32(u32),
    I32(i32),
    U64(u64),
    I64(i64),
    F32(u32),
    F64(u64),
    Bool(bool),
    Char(Option<char>),
    U8Array(Vec<u8>),
    I8Array(Vec<i8>),
    U16Array(Vec<u16>),
    I16Array(Vec<i16>),
    U32Array(Vec<u32>),
    I32Array(Vec<i32>),
    U64Array(Vec<u64>),
    I64Array(Vec<i64>),
    String(String),
}

/// The mathematical content of a [`RetValue`].
pub enum RetValueView {
    U8(u8),
    I8(i8),
    U16(u16),
    I16(i16),
    U32(u32),
    I32(i32),
    U64(u64),
    I64(i64),
    F32(u32),
    F64(u64),
    Bool(bool),
    Char(Option<char>),
    U8Array(Seq<u8>),
    I8Array(Seq<i8>),
    U16Array(Seq<u16>),
    I16Array(Seq<i16>),
    U32Array(Seq<u32>),
    I32Array(Seq<i32>),
    U64Array(Seq<u64>),
    I64Array(Seq<i64>),
    String(Seq<char>),
}

impl View for RetValue {
    type V = RetValueView;

    open spec fn view(&self) -> RetValueView {
        match self {
            RetValue::U8(v) => RetValueView::U8(*v),
            RetValue::I8(v) => RetValueView::I8(*v),
            RetValue::U16(v) => RetValueView::U16(*v),
            RetValue::I16(v) => RetValueView::I16(*v),
            RetValue::U32(v) => RetValueView::U32(*v),
            RetValue::I32(v) => RetValueView::I32(*v),
            RetValue::U64(v) => RetValueView::U64(*v),
            RetValue::I64(v) => RetValueView::I64(*v),
            RetValue::F32(v) => RetValueView::F32(*v),
            RetValue::F64(v) => RetValueView::F64(*v),
            RetValue::Bool(v) => RetValueView::Bool(*v),
            RetValue::Char(v) => RetValueView::Char(*v),
            RetValue::U8Array(v) => RetValueView::U8Array(v@),
            RetValue::I8Array(v) => RetValueView::I8Array(v@),
            RetValue::U16Array(v) => RetValueView::U16Array(v@),
            RetValue::I16Array(v) => RetValueView::I16Array(v@),
            RetValue::U32Array(v) => RetValueView::U32Array(v@),
            RetValue::I32Array(v) => RetValueView::I32Array(v@),
            RetValue::U64Array(v) => RetValueView::U64Array(v@),
            RetValue::I64Array(v) => RetValueView::I64Array(v@),
            RetValue::String(v) => RetValueView::String(v@),
        }
    }
}

/// The words read from consecutive `n`-byte little-endian chunks of `bytes`; a
/// trailing partial chunk is ignored.
pub open spec fn le_words(bytes: Seq<u8>, n: nat) -> Seq<int> {
    Seq::new(bytes.len() / n, |i: int| le_value(bytes.subrange(i * n, i * n + n)) as int)
}

/// The integers of type `T` read from consecutive chunks of `bytes`.
pub open spec fn words_decoded<T: LeWord>(bytes: Seq<u8>) -> Seq<T> {
    le_words(bytes, T::width()).map_values(|w: int| T::of_word(w))
}

/// The bytes of a result of type `t` can be decoded: a single-byte value needs at
/// least one byte, a wider scalar exactly its width, a string well-formed UTF-8.
pub open spec fn decodable(t: RetTypes, bytes: Seq<u8>) -> bool {
    match t {
        RetTypes::U8 | RetTypes::I8 | RetTypes::Bool => bytes.len() >= 1,
        RetTypes::U16 | RetTypes::I16 => bytes.len() == 2,
        RetTypes::U32 | RetTypes::I32 | RetTypes::F32 | RetTypes::Char => bytes.len() == 4,
        RetTypes::U64 | RetTypes::I64 | RetTypes::F64 => bytes.len() == 8,
        RetTypes::String => valid_utf8(bytes),
        _ => true,
    }
}

/// The value of type `t` that `bytes` hold.
pub open spec fn decoded_value(t: RetTypes, bytes: Seq<u8>) -> RetValueView {
    match t {
        RetTypes::U8 => RetValueView::U8(bytes[0]),
        RetTypes::I8 => RetValueView::I8(bytes[0] as i8),
        RetTypes::U16 => RetValueView::U16(le_value(bytes) as u16),
        RetTypes::I16 => RetValueView::I16((le_value(bytes) as u16) as i16),
        RetTypes::U32 => RetValueView::U32(le_value(bytes) as u32),
        RetTypes::I32 => RetValueView::I32((le_value(bytes) as u32) as i32),
        RetTypes::U64 => RetValueView::U64(le_value(bytes) as u64),
        RetTypes::I64 => RetValueView::I64((le_value(bytes) as u64) as i64),
        RetTypes::F32 => RetValueView::F32(le_value(bytes) as u32),
        RetTypes::F64 => RetValueView::F64(le_value(bytes) as u64),
        RetTypes::Bool => RetValueView::Bool(bytes[0] == 1),
        RetTypes::Char => {
            let c = le_value(bytes) as u32;
            RetValueView::Char(if is_char_value(c) { Some(c as char) } else { None })
        },
        RetTypes::U8Array => RetValueView::U8Array(bytes),
        RetTypes::I8Array => RetValueView::I8Array(bytes.map_values(|b: u8| b as i8)),
        RetTypes::U16Array => RetValueView::U16Array(words_decoded::<u16>(bytes)),
        RetTypes::I16Array => RetValueView::I16Array(words_decoded::<i16>(bytes)),
        RetTypes::U32Array => RetValueView::U32Array(words_decoded::<u32>(bytes)),
        RetTypes::I32Array => RetValueView::I32Array(words_decoded::<i32>(bytes)),
        RetTypes::U64Array => RetValueView::U64Array(words_decoded::<u64>(bytes)),
        RetTypes::I64Array => RetValueView::I64Array(words_decoded::<i64>(bytes)),
        RetTypes::String => RetValueView::String(decode_utf8(bytes)),
    }
}

fn decode_words<T: LeWord>(bytes: &Vec<u8>) -> (out: Vec<T>)
    ensures
        out@ == words_decoded::<T>(bytes@),
{
    let n = T::byte_width();
    let count = bytes.len() / n;
    let mut out: Vec<T> = Vec::new();
    let mut i: usize = 0;
    while i < count
        invariant
            n == T::width(),
            1 <= n <= 8,
            count == bytes.len() / n,
            i <= count,
            out@.len() == i,
            forall|j: int|
                0 <= j < i ==> out@[j] == T::of_word(
                    le_value(#[trigger] bytes@.subrange(j * n, j * n + n)) as int,
                ),
        decreases count - i,
    {
        assert(i * n + n <= bytes.len()) by (nonlinear_arith)
            requires
                i < count,
                count == bytes.len() / n,
                n >= 1,
        ;
        let start = i * n;
        let w = read_le(bytes, start, n);
        proof {
            lemma_le_value_bound(bytes@.subrange(start as int, start + n));
        }
        out.push(T::from_word(w));
        i = i + 1;
    }
    assert(out@ =~= words_decoded::<T>(bytes@));
    out
}

fn decode_i8s(bytes: &Vec<u8>) -> (out: Vec<i8>)
    ensures
        out@ == bytes@.map_values(|b: u8| b as i8),
{
    let mut out: Vec<i8> = Vec::new();
    let mut i: usize = 0;
    while i < bytes.len()
        invariant
            i <= bytes.len(),
            out@ == bytes@.take(i as int).map_values(|b: u8| b as i8),
        decreases bytes.len() - i,
    {
        out.push(bytes[i] as i8);
        assert(bytes@.take(i + 1).map_values(|b: u8| b as i8) =~= out@);
        i = i + 1;
    }
    assert(bytes@.take(bytes.len() as int) =~= bytes@);
    out
}

fn read_whole(bytes: &Vec<u8>, n: usize) -> (r: u64)
    requires
        n <= 8,
        bytes.len() == n,
    ensures
        r as nat == le_value(bytes@),
{
    let r = read_le(bytes, 0, n);
    assert(bytes@.subrange(0, n as int) =~= bytes@);
    r
}

/// Decodes a result of type `t` from its bytes.
pub fn decode_value(t: &RetTypes, bytes: &Vec<u8>) -> (v: RetValue)
    requires
        decodable(*t, bytes@),
    ensures
        v@ == decoded_value(*t, bytes@),
{
    match t {
        RetTypes::U8 => RetValue::U8(bytes[0]),
        RetTypes::I8 => RetValue::I8(bytes[0] as i8),
        RetTypes::U16 => RetValue::U16(read_whole(bytes, 2) as u16),
        RetTypes::I16 => RetValue::I16((read_whole(bytes, 2) as u16) as i16),
        RetTypes::U32 => RetValue::U32(read_whole(bytes, 4) as u32),
        RetTypes::I32 => RetValue::I32((read_whole(bytes, 4) as u32) as i32),
        RetTypes::U64 => RetValue::U64(read_whole(bytes, 8)),
        RetTypes::I64 => RetValue::I64(read_whole(bytes, 8) as i64),
        RetTypes::F32 => RetValue::F32(read_whole(bytes, 4) as u32),
        RetTypes::F64 => RetValue::F64(read_whole(bytes, 8)),
        RetTypes::Bool => RetValue::Bool(bytes[0] == 1),
        RetTypes::Char => RetValue::Char(char_from_u32(read_whole(bytes, 4) as u32)),
        RetTypes::U8Array => RetValue::U8Array(copy_bytes(bytes)),
        RetTypes::I8Array => RetValue::I8Array(decode_i8s(bytes)),
        RetTypes::U16Array => RetValue::U16Array(decode_words(bytes)),
        RetTypes::I16Array => RetValue::I16Array(decode_words(bytes)),
        RetTypes::U32Array => RetValue::U32Array(decode_words(bytes)),
        RetTypes::I32Array => RetValue::I32Array(decode_words(bytes)),
        RetTypes::U64Array => RetValue::U64Array(decode_words(bytes)),
        RetTypes::I64Array => RetValue::I64Array(decode_words(bytes)),
        RetTypes::String => match string_from_utf8(copy_bytes(bytes)) {
            Some(s) => RetValue::String(s),
            None => {
                proof {
                    assert(false);
                }
                RetValue::String(String::new())
            },
        },
    }
}

/// A result is decodable under its numeric tag: always when the tag names no type
/// (such a result is skipped).
pub open spec fn code_decodable(code: i32, bytes: Seq<u8>) -> bool {
    match ret_type_of(code) {
        Some(t) => decodable(t, bytes),
        None => true,
    }
}

/// Whether a result tagged `code` can be decoded from `bytes`.
pub fn result_decodable(code: i32, bytes: &Vec<u8>) -> (r: bool)
    ensures
        r == code_decodable(code, bytes@),
{
    match RetTypes::from_i32(code) {
        None => true,
        Some(t) => match t {
            RetTypes::U8 | RetTypes::I8 | RetTypes::Bool => bytes.len() >= 1,
            RetTypes::U16 | RetTypes::I16 => bytes.len() == 2,
            RetTypes::U32 | RetTypes::I32 | RetTypes::F32 | RetTypes::Char => bytes.len() == 4,
            RetTypes::U64 | RetTypes::I64 | RetTypes::F64 => bytes.len() == 8,
            RetTypes::String => string_from_utf8(copy_bytes(bytes)).is_some(),
            _ => true,
        },
    }
}

/// The message of an error a guest reports: its bytes read as UTF-8, any invalid
/// sequence replaced by U+FFFD.
pub fn error_message(bytes: &Vec<u8>) -> (r: String)
    ensures
        r@ == lossy_utf8(bytes@),
        valid_utf8(bytes@) ==> r@ == decode_utf8(bytes@),
{
    string_from_utf8_lossy(bytes)
}

/// Decodes a result tagged `code`; `None` when the tag names no type.
pub fn decode_result(code: i32, bytes: &Vec<u8>) -> (r: Option<RetValue>)
    requires
        code_decodable(code, bytes@),
    ensures
        r is Some <==> ret_type_of(code) is Some,
        r matches Some(v) ==> v@ == decoded_value(ret_type_of(code).unwrap(), bytes@),
{
    match RetTypes::from_i32(code) {
        Some(t) => Some(decode_value(&t, bytes)),
        None => None,
    }
}

/// One row of the result table a guest hands back: where a result lies in its
/// memory, its type tag, and its length in bytes.
#[derive(Debug, PartialEq, Eq)]
pub struct ResultSlot {
    pub pointer: i32,
    pub type_code: i32,
    pub length: i32,
}

/// The `k`-th little-endian `i32` of `table`.
pub open spec fn table_word(table: Seq<u8>, k: int) -> i32 {
    (le_value(table.subrange(4 * k, 4 * k + 4)) as u32) as i32
}

/// Splits the result table into its rows: row `i` is made of the `i32`s
/// `3i`, `3i + 1` and `3i + 2` of the table.
pub fn parse_result_table(table: &Vec<u8>, size: usize) -> (slots: Vec<ResultSlot>)
    requires
        table.len() == 12 * size,
    ensures
        slots.len() == size,
        forall|i: int|
            0 <= i < size ==> {
                &&& (#[trigger] slots@[i]).pointer == table_word(table@, 3 * i)
                &&& slots@[i].type_code == table_word(table@, 3 * i + 1)
                &&& slots@[i].length == table_word(table@, 3 * i + 2)
            },
{
    let mut slots: Vec<ResultSlot> = Vec::new();
    let mut i: usize = 0;
    while i < size
        invariant
            i <= size,
            table.len() == 12 * size,
            slots.len() == i,
            forall|j: int|
                0 <= j < i ==> {
                    &&& (#[trigger] slots@[j]).pointer == table_word(table@, 3 * j)
                    &&& slots@[j].type_code == table_word(table@, 3 * j + 1)
                    &&& slots@[j].length == table_word(table@, 3 * j + 2)
                },
        decreases size - i,
    {
        let base = 12 * i;
        let pointer = (read_le(table, base, 4) as u32) as i32;
        let type_code = (read_le(table, base + 4, 4) as u32) as i32;
        let length = (read_le(table, base + 8, 4) as u32) as i32;
        slots.push(ResultSlot { pointer, type_code, length });
        i = i + 1;
    }
    slots
}

/// The results decoded from the blobs tagged `codes`, in order, leaving out those whose
/// tag names no type.
pub open spec fn decoded_results(codes: Seq<i32>, blobs: Seq<Seq<u8>>) -> Seq<RetValueView>
    decreases codes.len(),
{
    if codes.len() == 0 {
        Seq::empty()
    } else {
        let prev = decoded_results(codes.drop_last(), blobs.take(codes.len() - 1));
        match ret_type_of(codes.last()) {
            Some(t) => prev.push(decoded_value(t, blobs[codes.len() - 1])),
            None => prev,
        }
    }
}

pub open spec fn slot_codes(slots: Seq<ResultSlot>) -> Seq<i32> {
    slots.map_values(|s: ResultSlot| s.type_code)
}

pub open spec fn blob_views(blobs: Seq<Vec<u8>>) -> Seq<Seq<u8>> {
    blobs.map_values(|b: Vec<u8>| b@)
}

pub open spec fn value_views(values: Seq<RetValue>) -> Seq<RetValueView> {
    values.map_values(|v: RetValue| v@)
}

/// Decodes the blob read for each row of the result table.
pub fn collect_results(slots: &Vec<ResultSlot>, blobs: &Vec<Vec<u8>>) -> (out: Vec<RetValue>)
    requires
        blobs.len() == slots.len(),
        forall|i: int|
            0 <= i < slots.len() ==> code_decodable(
                (#[trigger] slots@[i]).type_code,
                blobs@[i]@,
            ),
    ensures
        value_views(out@) == decoded_results(slot_codes(slots@), blob_views(blobs@)),
{
    let mut out: Vec<RetValue> = Vec::new();
    let mut i: usize = 0;
    while i < slots.len()
        invariant
            i <= slots.len(),
            blobs.len() == slots.len(),
            forall|k: int|
                0 <= k < slots.len() ==> code_decodable(
                    (#[trigger] slots@[k]).type_code,
                    blobs@[k]@,
                ),
            value_views(out@) == decoded_results(
                slot_codes(slots@).take(i as int),
                blob_views(blobs@).take(i as int),
            ),
        decreases slots.len() - i,
    {
        let ghost codes = slot_codes(slots@).take(i + 1);
        let ghost views = blob_views(blobs@).take(i + 1);
        assert(codes.drop_last() =~= slot_codes(slots@).take(i as int));
        assert(views.take(i as int) =~= blob_views(blobs@).take(i as int));
        assert(codes.last() == slots@[i as int].type_code);
        assert(views[i as int] == blobs@[i as int]@);
        let ghost before = out@;
        match decode_result(slots[i].type_code, &blobs[i]) {
            Some(v) => {
                out.push(v);
                assert(value_views(out@) =~= value_views(before).push(v@));
            },
            None => {},
        }
        i = i + 1;
    }
    assert(slot_codes(slots@).take(slots.len() as int) =~= slot_codes(slots@));
    assert(blob_views(blobs@).take(slots.len() as int) =~= blob_views(blobs@));
    out
}

/// A `char` result reads back as itself: the four little-endian bytes of the code of
/// any character `c` decode, under the `Char` tag, to `Some(c)`; and four bytes whose
/// number is a surrogate or lies above U+10FFFF decode to `None`.
pub proof fn lemma_char_result(c: char, v: u32)
    ensures
        decodable(RetTypes::Char, le_bytes(c as int, 4)),
        decoded_value(RetTypes::Char, le_bytes(c as int, 4)) == RetValueView::Char(Some(c)),
        (0xD800 <= v < 0xE000 || v > 0x10FFFF) ==> decoded_value(RetTypes::Char, le_bytes(v as int, 4))
            == RetValueView::Char(None),
{
    reveal_with_fuel(pow256, 5);
    assert(pow256(4) == 0x1_0000_0000);
    assert((c as u32) as int == c as int);
    lemma_le_bytes_len(c as int, 4);
    lemma_le_round_trip(c as int, 4);
    lemma_le_round_trip(v as int, 4);
    assert(((c as u32) as char) == c);
}

/// Every result whose tag names a type gives exactly one value, whatever its bytes
/// (an empty string or array included), and a result with an unknown tag gives none:
/// there are as many values as results with a known tag.
pub proof fn lemma_one_value_per_known_result(codes: Seq<i32>, blobs: Seq<Seq<u8>>)
    requires
        blobs.len() == codes.len(),
    ensures
        decoded_results(codes, blobs).len() == codes.filter(|c: i32| ret_type_of(c) is Some).len(),
    decreases codes.len(),
{
    reveal(Seq::filter);
    if codes.len() > 0 {
        lemma_one_value_per_known_result(codes.drop_last(), blobs.take(codes.len() - 1));
    }
}

/// When every tag names a type, the values come in the order of the results, one for
/// each: value `i` is result `i`'s bytes decoded under its tag.
pub proof fn lemma_results_in_order(codes: Seq<i32>, blobs: Seq<Seq<u8>>)
    requires
        blobs.len() == codes.len(),
        forall|i: int| 0 <= i < codes.len() ==> (#[trigger] ret_type_of(codes[i])) is Some,
    ensures
        decoded_results(codes, blobs).len() == codes.len(),
        forall|i: int|
            0 <= i < codes.len() ==> #[trigger] decoded_results(codes, blobs)[i] == decoded_value(
                ret_type_of(codes[i]).unwrap(),
                blobs[i],
            ),
    decreases codes.len(),
{
    if codes.len() > 0 {
        let n = codes.len() - 1;
        let front = codes.drop_last();
        let fb = blobs.take(n);
        assert forall|i: int| 0 <= i < front.len() implies (#[trigger] ret_type_of(front[i])) is Some by {
            assert(front[i] == codes[i]);
        }
        lemma_results_in_order(front, fb);
        assert(ret_type_of(codes[n]) is Some);
        assert forall|i: int| 0 <= i < codes.len() implies #[trigger] decoded_results(codes, blobs)[i]
            == decoded_value(ret_type_of(codes[i]).unwrap(), blobs[i]) by {
            if i < n {
                assert(front[i] == codes[i]);
                assert(fb[i] == blobs[i]);
                assert(decoded_results(front, fb)[i] == decoded_value(ret_type_of(front[i]).unwrap(), fb[i]));
            }
        }
    }
}

} // verus!
