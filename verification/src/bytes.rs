//! Little-endian byte encodings of integers.

use vstd::prelude::*;

verus! {

/// 256 raised to the power `n`.
pub open spec fn pow256(n: nat) -> nat
    decreases n,
{
    if n == 0 {
        1
    } else {
        256 * pow256((n - 1) as nat)
    }
}

/// The `n` little-endian bytes of `v`, taken modulo 256^n (so a negative `v`
/// gives its two's complement bytes).
pub open spec fn le_bytes(v: int, n: nat) -> Seq<u8>
    decreases n,
{
    if n == 0 {
        Seq::empty()
    } else {
        seq![(v % 256) as u8] + le_bytes(v / 256, (n - 1) as nat)
    }
}

/// The unsigned number whose little-endian bytes are `s`.
pub open spec fn le_value(s: Seq<u8>) -> nat
    decreases s.len(),
{
    if s.len() == 0 {
        0
    } else {
        s[0] as nat + 256 * le_value(s.drop_first())
    }
}

pub proof fn lemma_le_bytes_len(v: int, n: nat)
    ensures
        le_bytes(v, n).len() == n,
    decreases n,
{
    if n > 0 {
        lemma_le_bytes_len(v / 256, (n - 1) as nat);
    }
}

pub proof fn lemma_pow256_positive(n: nat)
    ensures
        pow256(n) >= 1,
    decreases n,
{
    if n > 0 {
        lemma_pow256_positive((n - 1) as nat);
    }
}

pub proof fn lemma_pow256_mono(a: nat, b: nat)
    requires
        a <= b,
    ensures
        pow256(a) <= pow256(b),
    decreases b,
{
    if a < b {
        lemma_pow256_mono(a, (b - 1) as nat);
        lemma_pow256_positive((b - 1) as nat);
    }
}

pub proof fn lemma_le_value_bound(s: Seq<u8>)
    ensures
        le_value(s) < pow256(s.len()),
    decreases s.len(),
{
    if s.len() > 0 {
        lemma_le_value_bound(s.drop_first());
    }
}

/// Reading back the `n` little-endian bytes of a number below 256^n gives the number.
pub proof fn lemma_le_round_trip(v: int, n: nat)
    requires
        0 <= v < pow256(n),
    ensures
        le_value(le_bytes(v, n)) == v,
    decreases n,
{
    if n > 0 {
        let rest = le_bytes(v / 256, (n - 1) as nat);
        assert(le_bytes(v, n).drop_first() =~= rest);
        assert(v / 256 < pow256((n - 1) as nat));
        lemma_le_round_trip(v / 256, (n - 1) as nat);
    }
}

/// Appends the `n` little-endian bytes of `value` to `out`.
pub fn append_le(out: &mut Vec<u8>, value: u64, n: usize)
    ensures
        final(out)@ == old(out)@ + le_bytes(value as int, n as nat),
{
    let ghost init = out@;
    let mut x = value;
    let mut i: usize = 0;
    assert(init + le_bytes(value as int, n as nat) =~= out@ + le_bytes(x as int, (n - i) as nat));
    while i < n
        invariant
            i <= n,
            init + le_bytes(value as int, n as nat) =~= out@ + le_bytes(x as int, (n - i) as nat),
        decreases n - i,
    {
        let ghost prev = out@;
        let ghost k = (n - i) as nat;
        out.push((x % 256) as u8);
        assert(out@ + le_bytes((x / 256) as int, (k - 1) as nat) =~= prev + le_bytes(x as int, k));
        x = x / 256;
        i = i + 1;
    }
}

/// The number whose `n` little-endian bytes start at `start` in `bytes`.
pub fn read_le(bytes: &Vec<u8>, start: usize, n: usize) -> (r: u64)
    requires
        n <= 8,
        start + n <= bytes.len(),
    ensures
        r as nat == le_value(bytes@.subrange(start as int, start + n)),
{
    let mut acc: u64 = 0;
    let mut k = n;
    assert(bytes@.subrange(start + k, start + n) =~= Seq::<u8>::empty());
    while k > 0
        invariant
            k <= n,
            n <= 8,
            start + n <= bytes.len(),
            acc as nat == le_value(bytes@.subrange(start + k, start + n)),
        decreases k,
    {
        proof {
            lemma_le_value_bound(bytes@.subrange(start + k, start + n));
            lemma_pow256_mono((n - k) as nat, 7);
            assert(pow256(7) == 72057594037927936) by {
                reveal_with_fuel(pow256, 8);
            }
            assert(bytes@.subrange(start + k - 1, start + n).drop_first()
                =~= bytes@.subrange(start + k, start + n));
        }
        let b = bytes[start + k - 1];
        acc = (b as u64) + acc * 256;
        k = k - 1;
    }
    acc
}

/// A copy of `v`.
pub fn copy_bytes(v: &Vec<u8>) -> (out: Vec<u8>)
    ensures
        out@ == v@,
{
    let mut out: Vec<u8> = Vec::new();
    let mut i: usize = 0;
    while i < v.len()
        invariant
            i <= v.len(),
            out@ == v@.take(i as int),
        decreases v.len() - i,
    {
        out.push(v[i]);
        assert(v@.take(i + 1) =~= out@);
        i = i + 1;
    }
    assert(v@.take(v.len() as int) =~= v@);
    out
}

} // verus!
