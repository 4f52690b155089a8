//! What a guest receives for a parameter reads back, under the matching result
//! type, as the same value.

use vstd::prelude::*;
use crate::bytes::{le_bytes, lemma_le_bytes_len, lemma_le_round_trip};
use crate::param::{le_concat, lemma_le_concat_len, param_data, words_bytes, words_of, Param};
use crate::ret::{code_decodable, decoded_value, ret_type_of, words_decoded, RetValueView};
use crate::word::LeWord;

verus! {

/// The result tag under which the guest reads back a parameter of the kind of `p`.
pub open spec fn ret_code_for(p: Param) -> i32 {
    match p {
        Param::U8(_) => 1,
        Param::I8(_) => 2,
        Param::U16(_) => 3,
        Param::I16(_) => 4,
        Param::U32(_) => 5,
        Param::I32(_) => 6,
        Param::U64(_) => 7,
        Param::I64(_) => 8,
        Param::F32(_) => 9,
        Param::F64(_) => 10,
        Param::Bool(_) => 11,
        Param::VecU8(_) => 21,
        Param::VecI8(_) => 22,
        Param::VecU16(_) => 23,
        Param::VecI16(_) => 24,
        Param::VecU32(_) => 25,
        Param::VecI32(_) => 26,
        Param::VecU64(_) => 27,
        Param::VecI64(_) => 28,
        Param::String(_) => 31,
    }
}

/// The value that `p` carries, as a result value.
pub open spec fn param_value(p: Param) -> RetValueView {
    match p {
        Param::I8(v) => RetValueView::I8(v),
        Param::U8(v) => RetValueView::U8(v),
        Param::I16(v) => RetValueView::I16(v),
        Param::U16(v) => RetValueView::U16(v),
        Param::I32(v) => RetValueView::I32(v),
        Param::U32(v) => RetValueView::U32(v),
        Param::I64(v) => RetValueView::I64(v),
        Param::U64(v) => RetValueView::U64(v),
        Param::F32(v) => RetValueView::F32(v),
        Param::F64(v) => RetValueView::F64(v),
        Param::Bool(v) => RetValueView::Bool(v),
        Param::VecI8(v) => RetValueView::I8Array(v@),
        Param::VecU8(v) => RetValueView::U8Array(v@),
        Param::VecI16(v) => RetValueView::I16Array(v@),
        Param::VecU16(v) => RetValueView::U16Array(v@),
        Param::VecI32(v) => RetValueView::I32Array(v@),
        Param::VecU32(v) => RetValueView::U32Array(v@),
        Param::VecI64(v) => RetValueView::I64Array(v@),
        Param::VecU64(v) => RetValueView::U64Array(v@),
        Param::String(s) => RetValueView::String(s@),
    }
}

proof fn lemma_le_concat_chunk(ws: Seq<int>, n: nat, i: int)
    requires
        0 <= i < ws.len(),
    ensures
        le_concat(ws, n).subrange(i * n, i * n + n) == le_bytes(ws[i], n),
    decreases ws.len(),
{
    let prefix = le_concat(ws.drop_last(), n);
    lemma_le_concat_len(ws.drop_last(), n);
    lemma_le_bytes_len(ws.last(), n);
    if i < ws.len() - 1 {
        lemma_le_concat_chunk(ws.drop_last(), n, i);
        assert(i * n + n <= (ws.len() - 1) * n) by (nonlinear_arith)
            requires
                0 <= i < ws.len() - 1,
        ;
        assert(le_concat(ws, n).subrange(i * n, i * n + n) =~= prefix.subrange(i * n, i * n + n));
    } else {
        assert(i * n == prefix.len());
        assert(le_concat(ws, n).subrange(i * n, i * n + n) =~= le_bytes(ws.last(), n));
    }
}

proof fn lemma_words_round_trip<T: LeWord>(v: Seq<T>)
    ensures
        words_decoded::<T>(words_bytes(v)) == v,
{
    let ws = words_of(v);
    let n = T::width();
    let bytes = le_concat(ws, n);
    T::lemma_width();
    lemma_le_concat_len(ws, n);
    assert(bytes.len() / n == v.len()) by (nonlinear_arith)
        requires
            bytes.len() == v.len() * n,
            n >= 1,
    ;
    assert forall|i: int| 0 <= i < v.len() implies #[trigger] words_decoded::<T>(bytes)[i] == v[i] by {
        lemma_le_concat_chunk(ws, n, i);
        v[i].lemma_word_range();
        lemma_le_round_trip(ws[i], n);
        T::lemma_word_of(v[i]);
    }
    assert(words_decoded::<T>(bytes) =~= v);
}

/// Round trip of the calling convention: the bytes written into guest memory for any
/// parameter decode, under the result type of the same kind, to the value that the
/// parameter carries.
pub proof fn lemma_param_round_trip(p: Param)
    ensures
        ret_type_of(ret_code_for(p)) is Some,
        code_decodable(ret_code_for(p), param_data(p)),
        decoded_value(ret_type_of(ret_code_for(p)).unwrap(), param_data(p)) == param_value(p),
{
    broadcast use vstd::utf8::encode_utf8_decode_utf8, vstd::utf8::encode_utf8_valid_utf8;

    match p {
        Param::I8(v) => {
            assert((v as u8) as i8 == v) by (bit_vector);
        },
        Param::I16(v) => {
            v.lemma_word_range();
            lemma_le_bytes_len(v.word(), 2);
            lemma_le_round_trip(v.word(), 2);
            <i16 as LeWord>::lemma_word_of(v);
        },
        Param::U16(v) => {
            v.lemma_word_range();
            lemma_le_bytes_len(v as int, 2);
            lemma_le_round_trip(v as int, 2);
        },
        Param::I32(v) => {
            v.lemma_word_range();
            lemma_le_bytes_len(v.word(), 4);
            lemma_le_round_trip(v.word(), 4);
            <i32 as LeWord>::lemma_word_of(v);
        },
        Param::U32(v) => {
            v.lemma_word_range();
            lemma_le_bytes_len(v as int, 4);
            lemma_le_round_trip(v as int, 4);
        },
        Param::F32(v) => {
            v.lemma_word_range();
            lemma_le_bytes_len(v as int, 4);
            lemma_le_round_trip(v as int, 4);
        },
        Param::I64(v) => {
            v.lemma_word_range();
            lemma_le_bytes_len(v.word(), 8);
            lemma_le_round_trip(v.word(), 8);
            <i64 as LeWord>::lemma_word_of(v);
        },
        Param::U64(v) => {
            v.lemma_word_range();
            lemma_le_bytes_len(v as int, 8);
            lemma_le_round_trip(v as int, 8);
        },
        Param::F64(v) => {
            v.lemma_word_range();
            lemma_le_bytes_len(v as int, 8);
            lemma_le_round_trip(v as int, 8);
        },
        Param::VecI8(v) => {
            let back = v@.map_values(|x: i8| x as u8).map_values(|b: u8| b as i8);
            assert forall|i: int| 0 <= i < v@.len() implies #[trigger] back[i] == v@[i] by {
                let x = v@[i];
                assert((x as u8) as i8 == x) by (bit_vector);
            }
            assert(back =~= v@);
        },
        Param::VecI16(v) => {
            lemma_words_round_trip(v@);
        },
        Param::VecU16(v) => {
            lemma_words_round_trip(v@);
        },
        Param::VecI32(v) => {
            lemma_words_round_trip(v@);
        },
        Param::VecU32(v) => {
            lemma_words_round_trip(v@);
        },
        Param::VecI64(v) => {
            lemma_words_round_trip(v@);
        },
        Param::VecU64(v) => {
            lemma_words_round_trip(v@);
        },
        _ => {},
    }
}

} // verus!
