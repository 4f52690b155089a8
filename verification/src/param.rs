//! Parameters handed to a guest function, and how each is laid out in the
//! guest's linear memory.

use vstd::prelude::*;
use vstd::utf8::encode_utf8;
use crate::bytes::{append_le, copy_bytes, le_bytes, lemma_le_bytes_len};
use crate::word::LeWord;

verus! {

/// The bytes of a sequence of words, each written as `n` little-endian bytes.
pub open spec fn le_concat(words: Seq<int>, n: nat) -> Seq<u8>
    decreases words.len(),
{
    if words.len() == 0 {
        Seq::empty()
    } else {
        le_concat(words.drop_last(), n) + le_bytes(words.last(), n)
    }
}

/// The wire words of a sequence of integers.
pub open spec fn words_of<T: LeWord>(v: Seq<T>) -> Seq<int> {
    v.map_values(|x: T| x.word())
}

/// The bytes of a vector of integers of type `T`, element after element.
pub open spec fn words_bytes<T: LeWord>(v: Seq<T>) -> Seq<u8> {
    le_concat(words_of(v), T::width())
}

/// Writes every element of `v` as `T::width()` little-endian bytes.
pub fn encode_words<T: LeWord>(v: &Vec<T>) -> (out: Vec<u8>)
    ensures
        out@ == words_bytes(v@),
{
    let n = T::byte_width();
    let mut out: Vec<u8> = Vec::new();
    let mut i: usize = 0;
    assert(words_of(v@.take(0)) =~= Seq::<int>::empty());
    while i < v.len()
        invariant
            i <= v.len(),
            n == T::width(),
            out@ == le_concat(words_of(v@.take(i as int)), n as nat),
        decreases v.len() - i,
    {
        let w = v[i].to_word();
        append_le(&mut out, w, n);
        assert(words_of(v@.take(i + 1)).drop_last() =~= words_of(v@.take(i as int)));
        assert(words_of(v@.take(i + 1)).last() == v@[i as int].word());
        i = i + 1;
    }
    assert(v@.take(v.len() as int) =~= v@);
    out
}

/// A value passed to a guest function. The floating-point variants carry the IEEE 754
/// bit pattern of the number (`f32::to_bits`, `f64::to_bits`).
#[derive(Debug, PartialEq, Eq)]
pub enum Param {
    I8(i8),
    U8(u8),
    I16(i16),
    U16(u16),
    I32(i32),
    U32(u32),
    I64(i64),
    U64(u64),
    F32(u32),
    F64(u64),
    Bool(bool),
    VecI8(Vec<i8>),
    VecU8(Vec<u8>),
    VecI16(Vec<i16>),
    VecU16(Vec<u16>),
    VecI32(Vec<i32>),
    VecU32(Vec<u32>),
    VecI64(Vec<i64>),
    VecU64(Vec<u64>),
    String(String),
}

/// The bytes that are written into guest memory for `p`.
pub open spec fn param_data(p: Param) -> Seq<u8> {
    match p {
        Param::I8(v) => seq![v as u8],
        Param::U8(v) => seq![v],
        Param::I16(v) => le_bytes(v.word(), 2),
        Param::U16(v) => le_bytes(v as int, 2),
        Param::I32(v) => le_bytes(v.word(), 4),
        Param::U32(v) => le_bytes(v as int, 4),
        Param::I64(v) => le_bytes(v.word(), 8),
        Param::U64(v) => le_bytes(v as int, 8),
        Param::F32(bits) => le_bytes(bits as int, 4),
        Param::F64(bits) => le_bytes(bits as int, 8),
        Param::Bool(b) => seq![if b { 1u8 } else { 0u8 }],
        Param::VecI8(v) => v@.map_values(|x: i8| x as u8),
        Param::VecU8(v) => v@,
        Param::VecI16(v) => words_bytes(v@),
        Param::VecU16(v) => words_bytes(v@),
        Param::VecI32(v) => words_bytes(v@),
        Param::VecU32(v) => words_bytes(v@),
        Param::VecI64(v) => words_bytes(v@),
        Param::VecU64(v) => words_bytes(v@),
        Param::String(s) => encode_utf8(s@),
    }
}

/// The length reported to the guest for `p`: the number of elements of a vector, the
/// number of UTF-8 bytes of a string, 1 for a scalar, except 2 for a `U16`.
pub open spec fn param_length(p: Param) -> int {
    match p {
        Param::U16(_) => 2,
        Param::VecI8(v) => v.len() as int,
        Param::VecU8(v) => v.len() as int,
        Param::VecI16(v) => v.len() as int,
        Param::VecU16(v) => v.len() as int,
        Param::VecI32(v) => v.len() as int,
        Param::VecU32(v) => v.len() as int,
        Param::VecI64(v) => v.len() as int,
        Param::VecU64(v) => v.len() as int,
        Param::String(s) => encode_utf8(s@).len() as int,
        _ => 1,
    }
}

/// The size in bytes of one element of `p`.
pub open spec fn param_width(p: Param) -> int {
    match p {
        Param::I16(_) | Param::U16(_) | Param::VecI16(_) | Param::VecU16(_) => 2,
        Param::I32(_) | Param::U32(_) | Param::F32(_) | Param::VecI32(_) | Param::VecU32(_) => 4,
        Param::I64(_) | Param::U64(_) | Param::F64(_) | Param::VecI64(_) | Param::VecU64(_) => 8,
        _ => 1,
    }
}

/// The number of bytes allocated in the guest for `p`.
pub open spec fn param_alloc_size(p: Param) -> int {
    param_length(p) * param_width(p)
}

/// The allocation of `p` is addressable with an `i32`.
pub open spec fn param_fits(p: Param) -> bool {
    param_alloc_size(p) <= i32::MAX
}

/// Where a parameter goes in guest memory: `alloc_size` bytes are allocated, `data` is
/// written at the start of the allocation, and `length` is reported to the guest.
#[derive(Debug, PartialEq, Eq)]
pub struct Settlement {
    pub alloc_size: i32,
    pub data: Vec<u8>,
    pub length: i32,
}

fn encode_i8s(v: &Vec<i8>) -> (out: Vec<u8>)
    ensures
        out@ == v@.map_values(|x: i8| x as u8),
{
    let mut out: Vec<u8> = Vec::new();
    let mut i: usize = 0;
    while i < v.len()
        invariant
            i <= v.len(),
            out@ == v@.take(i as int).map_values(|x: i8| x as u8),
        decreases v.len() - i,
    {
        out.push(v[i] as u8);
        assert(v@.take(i + 1).map_values(|x: i8| x as u8) =~= out@);
        i = i + 1;
    }
    assert(v@.take(v.len() as int) =~= v@);
    out
}

fn scalar_bytes(value: u64, n: usize) -> (out: Vec<u8>)
    ensures
        out@ == le_bytes(value as int, n as nat),
{
    let mut out: Vec<u8> = Vec::new();
    append_le(&mut out, value, n);
    assert(out@ =~= le_bytes(value as int, n as nat));
    out
}

impl Param {
    /// Whether the allocation of `self` is addressable with an `i32`.
    pub fn fits(&self) -> (r: bool)
        ensures
            r == param_fits(*self),
    {
        match self {
            Param::VecI8(v) => v.len() <= 0x7fff_ffff,
            Param::VecU8(v) => v.len() <= 0x7fff_ffff,
            Param::VecI16(v) => v.len() <= 0x3fff_ffff,
            Param::VecU16(v) => v.len() <= 0x3fff_ffff,
            Param::VecI32(v) => v.len() <= 0x1fff_ffff,
            Param::VecU32(v) => v.len() <= 0x1fff_ffff,
            Param::VecI64(v) => v.len() <= 0x0fff_ffff,
            Param::VecU64(v) => v.len() <= 0x0fff_ffff,
            Param::String(s) => s.as_str().as_bytes().len() <= 0x7fff_ffff,
            _ => true,
        }
    }

    /// How `self` is placed in guest memory.
    pub fn settlement(&self) -> (s: Settlement)
        requires
            param_fits(*self),
        ensures
            s.alloc_size == param_alloc_size(*self),
            s.data@ == param_data(*self),
            s.length == param_length(*self),
    {
        match self {
            Param::I8(v) => Settlement { alloc_size: 1, data: vec![*v as u8], length: 1 },
            Param::U8(v) => Settlement { alloc_size: 1, data: vec![*v], length: 1 },
            Param::I16(v) => Settlement { alloc_size: 2, data: scalar_bytes(v.to_word(), 2), length: 1 },
            Param::U16(v) => Settlement { alloc_size: 4, data: scalar_bytes(*v as u64, 2), length: 2 },
            Param::I32(v) => Settlement { alloc_size: 4, data: scalar_bytes(v.to_word(), 4), length: 1 },
            Param::U32(v) => Settlement { alloc_size: 4, data: scalar_bytes(*v as u64, 4), length: 1 },
            Param::I64(v) => Settlement { alloc_size: 8, data: scalar_bytes(v.to_word(), 8), length: 1 },
            Param::U64(v) => Settlement { alloc_size: 8, data: scalar_bytes(*v, 8), length: 1 },
            Param::F32(bits) => Settlement { alloc_size: 4, data: scalar_bytes(*bits as u64, 4), length: 1 },
            Param::F64(bits) => Settlement { alloc_size: 8, data: scalar_bytes(*bits, 8), length: 1 },
            Param::Bool(b) => {
                let byte: u8 = if *b { 1 } else { 0 };
                Settlement { alloc_size: 1, data: vec![byte], length: 1 }
            },
            Param::VecI8(v) => {
                let length = v.len() as i32;
                Settlement { alloc_size: length, data: encode_i8s(v), length }
            },
            Param::VecU8(v) => {
                let length = v.len() as i32;
                Settlement { alloc_size: length, data: copy_bytes(v), length }
            },
            Param::VecI16(v) => {
                let length = v.len() as i32;
                Settlement { alloc_size: length * 2, data: encode_words(v), length }
            },
            Param::VecU16(v) => {
                let length = v.len() as i32;
                Settlement { alloc_size: length * 2, data: encode_words(v), length }
            },
            Param::VecI32(v) => {
                let length = v.len() as i32;
                Settlement { alloc_size: length * 4, data: encode_words(v), length }
            },
            Param::VecU32(v) => {
                let length = v.len() as i32;
                Settlement { alloc_size: length * 4, data: encode_words(v), length }
            },
            Param::VecI64(v) => {
                let length = v.len() as i32;
                Settlement { alloc_size: length * 8, data: encode_words(v), length }
            },
            Param::VecU64(v) => {
                let length = v.len() as i32;
                Settlement { alloc_size: length * 8, data: encode_words(v), length }
            },
            Param::String(s) => {
                let bytes = vstd::slice::slice_to_vec(s.as_str().as_bytes());
                let length = bytes.len() as i32;
                Settlement { alloc_size: length, data: bytes, length }
            },
        }
    }
}

pub proof fn lemma_le_concat_len(ws: Seq<int>, n: nat)
    ensures
        le_concat(ws, n).len() == ws.len() * n,
    decreases ws.len(),
{
    if ws.len() > 0 {
        lemma_le_concat_len(ws.drop_last(), n);
        lemma_le_bytes_len(ws.last(), n);
        assert((ws.len() - 1) * n + n == ws.len() * n) by (nonlinear_arith);
    }
}

/// Every parameter's data lies within its allocation, and fills it, except for a
/// `U16`, whose two bytes sit in an allocation of four.
pub proof fn lemma_data_within_allocation(p: Param)
    ensures
        param_data(p).len() <= param_alloc_size(p),
        !(p is U16) ==> param_data(p).len() == param_alloc_size(p),
{
    match p {
        Param::I16(v) => lemma_le_bytes_len(v.word(), 2),
        Param::U16(v) => lemma_le_bytes_len(v as int, 2),
        Param::I32(v) => lemma_le_bytes_len(v.word(), 4),
        Param::U32(v) => lemma_le_bytes_len(v as int, 4),
        Param::I64(v) => lemma_le_bytes_len(v.word(), 8),
        Param::U64(v) => lemma_le_bytes_len(v as int, 8),
        Param::F32(v) => lemma_le_bytes_len(v as int, 4),
        Param::F64(v) => lemma_le_bytes_len(v as int, 8),
        Param::VecI16(v) => lemma_le_concat_len(words_of(v@), 2),
        Param::VecU16(v) => lemma_le_concat_len(words_of(v@), 2),
        Param::VecI32(v) => lemma_le_concat_len(words_of(v@), 4),
        Param::VecU32(v) => lemma_le_concat_len(words_of(v@), 4),
        Param::VecI64(v) => lemma_le_concat_len(words_of(v@), 8),
        Param::VecU64(v) => lemma_le_concat_len(words_of(v@), 8),
        _ => {},
    }
}

/// The layout of every parameter in terms of what it holds: a vector reports its
/// number of elements as its length and is given that many elements' worth of bytes
/// (1, 2, 4 or 8 bytes each), which its data fills; a string reports and is given its
/// number of UTF-8 bytes; a scalar reports length 1 and is given its own width, except
/// a `U16`, which reports 2 and is given 4 bytes for its 2.
pub proof fn lemma_parameter_layout(p: Param)
    ensures
        p matches Param::VecI8(v) ==> param_length(p) == v.len() && param_alloc_size(p) == v.len()
            && param_data(p).len() == v.len(),
        p matches Param::VecU8(v) ==> param_length(p) == v.len() && param_alloc_size(p) == v.len()
            && param_data(p).len() == v.len(),
        p matches Param::VecI16(v) ==> param_length(p) == v.len() && param_alloc_size(p) == 2 * v.len()
            && param_data(p).len() == 2 * v.len(),
        p matches Param::VecU16(v) ==> param_length(p) == v.len() && param_alloc_size(p) == 2 * v.len()
            && param_data(p).len() == 2 * v.len(),
        p matches Param::VecI32(v) ==> param_length(p) == v.len() && param_alloc_size(p) == 4 * v.len()
            && param_data(p).len() == 4 * v.len(),
        p matches Param::VecU32(v) ==> param_length(p) == v.len() && param_alloc_size(p) == 4 * v.len()
            && param_data(p).len() == 4 * v.len(),
        p matches Param::VecI64(v) ==> param_length(p) == v.len() && param_alloc_size(p) == 8 * v.len()
            && param_data(p).len() == 8 * v.len(),
        p matches Param::VecU64(v) ==> param_length(p) == v.len() && param_alloc_size(p) == 8 * v.len()
            && param_data(p).len() == 8 * v.len(),
        p matches Param::String(s) ==> param_length(p) == encode_utf8(s@).len() && param_alloc_size(p)
            == encode_utf8(s@).len() && param_data(p) == encode_utf8(s@),
        (p is I8 || p is U8 || p is Bool) ==> param_length(p) == 1 && param_alloc_size(p) == 1
            && param_data(p).len() == 1,
        p is I16 ==> param_length(p) == 1 && param_alloc_size(p) == 2 && param_data(p).len() == 2,
        p is U16 ==> param_length(p) == 2 && param_alloc_size(p) == 4 && param_data(p).len() == 2,
        (p is I32 || p is U32 || p is F32) ==> param_length(p) == 1 && param_alloc_size(p) == 4
            && param_data(p).len() == 4,
        (p is I64 || p is U64 || p is F64) ==> param_length(p) == 1 && param_alloc_size(p) == 8
            && param_data(p).len() == 8,
{
    lemma_data_within_allocation(p);
    match p {
        Param::U16(v) => lemma_le_bytes_len(v as int, 2),
        Param::VecI16(v) => lemma_le_concat_len(words_of(v@), 2),
        Param::VecU16(v) => lemma_le_concat_len(words_of(v@), 2),
        Param::VecI32(v) => lemma_le_concat_len(words_of(v@), 4),
        Param::VecU32(v) => lemma_le_concat_len(words_of(v@), 4),
        Param::VecI64(v) => lemma_le_concat_len(words_of(v@), 8),
        Param::VecU64(v) => lemma_le_concat_len(words_of(v@), 8),
        _ => {},
    }
}

} // verus!
