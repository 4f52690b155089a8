//! Fixed-width integers seen as unsigned little-endian words.

use vstd::prelude::*;
use crate::bytes::pow256;

verus! {

/// An integer type of `width()` bytes, carried on the wire as the unsigned number
/// `word()` (its two's complement bit pattern for a signed type).
pub trait LeWord: Sized {
    spec fn width() -> nat;

    spec fn word(&self) -> int;

    /// The value whose wire word is `w`.
    spec fn of_word(w: int) -> Self;

    fn byte_width() -> (n: usize)
        ensures
            n == Self::width(),
            1 <= n <= 8,
    ;

    fn to_word(&self) -> (w: u64)
        ensures
            w == self.word(),
    ;

    fn from_word(w: u64) -> (x: Self)
        requires
            w < pow256(Self::width()),
        ensures
            x == Self::of_word(w as int),
    ;

    proof fn lemma_of_word(w: u64)
        requires
            w < pow256(Self::width()),
        ensures
            Self::of_word(w as int).word() == w,
    ;

    proof fn lemma_word_range(&self)
        ensures
            0 <= self.word() < pow256(Self::width()),
    ;

    proof fn lemma_width()
        ensures
            1 <= Self::width() <= 8,
    ;

    proof fn lemma_word_of(x: Self)
        ensures
            Self::of_word(x.word()) == x,
    ;
}

proof fn lemma_pow256_values()
    ensures
        pow256(2) == 0x1_0000,
        pow256(4) == 0x1_0000_0000,
        pow256(8) == 0x1_0000_0000_0000_0000,
{
    reveal_with_fuel(pow256, 9);
}

impl LeWord for u16 {
    open spec fn width() -> nat {
        2
    }

    open spec fn word(&self) -> int {
        *self as int
    }

    open spec fn of_word(w: int) -> u16 {
        w as u16
    }

    fn byte_width() -> (n: usize) {
        2
    }

    fn to_word(&self) -> (w: u64) {
        *self as u64
    }

    fn from_word(w: u64) -> (x: u16) {
        w as u16
    }

    proof fn lemma_of_word(w: u64) {
        lemma_pow256_values();
    }

    proof fn lemma_word_range(&self) {
        lemma_pow256_values();
    }

    proof fn lemma_width() {
    }

    proof fn lemma_word_of(x: u16) {
    }
}

impl LeWord for i16 {
    open spec fn width() -> nat {
        2
    }

    open spec fn word(&self) -> int {
        (*self as u16) as int
    }

    open spec fn of_word(w: int) -> i16 {
        (w as u16) as i16
    }

    fn byte_width() -> (n: usize) {
        2
    }

    fn to_word(&self) -> (w: u64) {
        (*self as u16) as u64
    }

    fn from_word(w: u64) -> (x: i16) {
        (w as u16) as i16
    }

    proof fn lemma_of_word(w: u64) {
        lemma_pow256_values();
        assert(w < 0x1_0000 ==> ((w as u16) as i16) as u16 == w) by (bit_vector);
    }

    proof fn lemma_word_range(&self) {
        lemma_pow256_values();
    }

    proof fn lemma_width() {
    }

    proof fn lemma_word_of(x: i16) {
        assert(((x as u16) as i16) == x) by (bit_vector);
    }
}

impl LeWord for u32 {
    open spec fn width() -> nat {
        4
    }

    open spec fn word(&self) -> int {
        *self as int
    }

    open spec fn of_word(w: int) -> u32 {
        w as u32
    }

    fn byte_width() -> (n: usize) {
        4
    }

    fn to_word(&self) -> (w: u64) {
        *self as u64
    }

    fn from_word(w: u64) -> (x: u32) {
        w as u32
    }

    proof fn lemma_of_word(w: u64) {
        lemma_pow256_values();
    }

    proof fn lemma_word_range(&self) {
        lemma_pow256_values();
    }

    proof fn lemma_width() {
    }

    proof fn lemma_word_of(x: u32) {
    }
}

impl LeWord for i32 {
    open spec fn width() -> nat {
        4
    }

    open spec fn word(&self) -> int {
        (*self as u32) as int
    }

    open spec fn of_word(w: int) -> i32 {
        (w as u32) as i32
    }

    fn byte_width() -> (n: usize) {
        4
    }

    fn to_word(&self) -> (w: u64) {
        (*self as u32) as u64
    }

    fn from_word(w: u64) -> (x: i32) {
        (w as u32) as i32
    }

    proof fn lemma_of_word(w: u64) {
        lemma_pow256_values();
        assert(w < 0x1_0000_0000 ==> ((w as u32) as i32) as u32 == w) by (bit_vector);
    }

    proof fn lemma_word_range(&self) {
        lemma_pow256_values();
    }

    proof fn lemma_width() {
    }

    proof fn lemma_word_of(x: i32) {
        assert(((x as u32) as i32) == x) by (bit_vector);
    }
}

impl LeWord for u64 {
    open spec fn width() -> nat {
        8
    }

    open spec fn word(&self) -> int {
        *self as int
    }

    open spec fn of_word(w: int) -> u64 {
        w as u64
    }

    fn byte_width() -> (n: usize) {
        8
    }

    fn to_word(&self) -> (w: u64) {
        *self
    }

    fn from_word(w: u64) -> (x: u64) {
        w
    }

    proof fn lemma_of_word(w: u64) {
        lemma_pow256_values();
    }

    proof fn lemma_word_range(&self) {
        lemma_pow256_values();
    }

    proof fn lemma_width() {
    }

    proof fn lemma_word_of(x: u64) {
    }
}

impl LeWord for i64 {
    open spec fn width() -> nat {
        8
    }

    open spec fn word(&self) -> int {
        (*self as u64) as int
    }

    open spec fn of_word(w: int) -> i64 {
        (w as u64) as i64
    }

    fn byte_width() -> (n: usize) {
        8
    }

    fn to_word(&self) -> (w: u64) {
        (*self as u64) as u64
    }

    fn from_word(w: u64) -> (x: i64) {
        (w as u64) as i64
    }

    proof fn lemma_of_word(w: u64) {
        lemma_pow256_values();
        assert((w as i64) as u64 == w) by (bit_vector);
    }

    proof fn lemma_word_range(&self) {
        lemma_pow256_values();
    }

    proof fn lemma_width() {
    }

    proof fn lemma_word_of(x: i64) {
        assert(((x as u64) as i64) == x) by (bit_vector);
    }
}

} // verus!
