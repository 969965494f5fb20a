//! Little-endian integer fields inside byte buffers.

use vstd::prelude::*;

verus! {

/// The unsigned value of `s` read as a little-endian integer.
pub open spec fn le_uint(s: Seq<u8>) -> nat
    decreases s.len(),
{
    if s.len() == 0 {
        0
    } else {
        s[0] as nat + 256 * le_uint(s.drop_first())
    }
}

/// `256` raised to the power `n`.
pub open spec fn pow256(n: nat) -> nat
    decreases n,
{
    if n == 0 {
        1
    } else {
        256 * pow256((n - 1) as nat)
    }
}

/// The `n` little-endian bytes that encode `v` (its low `8 * n` bits).
pub open spec fn le_bytes(v: nat, n: nat) -> Seq<u8>
    decreases n,
{
    if n == 0 {
        Seq::empty()
    } else {
        seq![(v % 256) as u8] + le_bytes(v / 256, (n - 1) as nat)
    }
}

pub proof fn lemma_pow256_values()
    ensures
        pow256(2) == 0x1_0000,
        pow256(4) == 0x1_0000_0000,
        pow256(8) == 0x1_0000_0000_0000_0000,
{
    reveal_with_fuel(pow256, 9);
}

pub proof fn lemma_pow256_mono(a: nat, b: nat)
    requires
        a <= b,
    ensures
        0 < pow256(a) <= pow256(b),
    decreases b,
{
    if a < b {
        lemma_pow256_mono(a, (b - 1) as nat);
    } else if b > 0 {
        lemma_pow256_mono((b - 1) as nat, (b - 1) as nat);
    }
}

/// A little-endian value of `n` bytes is below `256^n`.
pub proof fn lemma_le_uint_bound(s: Seq<u8>)
    ensures
        le_uint(s) < pow256(s.len()),
    decreases s.len(),
{
    if s.len() > 0 {
        lemma_le_uint_bound(s.drop_first());
    }
}

/// The encoding of a value in `n` bytes has `n` bytes.
pub proof fn lemma_le_bytes_len(v: nat, n: nat)
    ensures
        le_bytes(v, n).len() == n,
    decreases n,
{
    if n > 0 {
        lemma_le_bytes_len(v / 256, (n - 1) as nat);
    }
}

/// Decoding the encoding of a value that fits gives the value back.
pub proof fn lemma_le_uint_of_bytes(v: nat, n: nat)
    requires
        v < pow256(n),
    ensures
        le_bytes(v, n).len() == n,
        le_uint(le_bytes(v, n)) == v,
    decreases n,
{
    if n > 0 {
        lemma_le_uint_of_bytes(v / 256, (n - 1) as nat);
        let b = le_bytes(v, n);
        assert(b.drop_first() =~= le_bytes(v / 256, (n - 1) as nat));
    }
}

/// Encoding the decoded value of a buffer gives the buffer back.
pub proof fn lemma_le_bytes_of_uint(s: Seq<u8>)
    ensures
        le_bytes(le_uint(s), s.len()) == s,
    decreases s.len(),
{
    if s.len() > 0 {
        let rest = s.drop_first();
        lemma_le_bytes_of_uint(rest);
        let v = le_uint(s);
        assert(v % 256 == s[0] as nat);
        assert(v / 256 == le_uint(rest));
        assert(le_bytes(v, s.len()) =~= s);
    }
}

/// Reads the little-endian value of `data[at .. at + n]`, `n <= 8`.
pub fn read_le(data: &[u8], at: usize, n: usize) -> (v: u64)
    requires
        n <= 8,
        at + n <= data@.len(),
    ensures
        v == le_uint(data@.subrange(at as int, at + n)),
{
    let mut v: u64 = 0;
    let mut i: usize = n;
    let len = data.len();
    proof {
        assert(data@.subrange(at + n, at + n) =~= Seq::<u8>::empty());
        lemma_pow256_values();
    }
    while i > 0
        invariant
            n <= 8,
            at + n <= data@.len(),
            len == data@.len(),
            i <= n,
            v == le_uint(data@.subrange(at + i, at + n)),
            pow256(2) == 0x1_0000,
            pow256(4) == 0x1_0000_0000,
            pow256(8) == 0x1_0000_0000_0000_0000,
        decreases i,
    {
        let ghost tail = data@.subrange(at + i, at + n);
        let ghost next = data@.subrange(at + i - 1, at + n);
        proof {
            assert(next.drop_first() =~= tail);
            lemma_le_uint_bound(tail);
            lemma_pow256_mono(tail.len(), 7);
            assert(pow256(8) == 256 * pow256(7));
        }
        v = (data[at + i - 1] as u64) + 256 * v;
        i = i - 1;
    }
    v
}

/// Reads a little-endian `u16` at `at`.
pub fn read_le_u16(data: &[u8], at: usize) -> (v: u16)
    requires
        at + 2 <= data@.len(),
    ensures
        v == le_uint(data@.subrange(at as int, at + 2)),
{
    let w = read_le(data, at, 2);
    proof {
        lemma_le_uint_bound(data@.subrange(at as int, at + 2));
        lemma_pow256_values();
    }
    w as u16
}

/// Reads a little-endian `u32` at `at`.
pub fn read_le_u32(data: &[u8], at: usize) -> (v: u32)
    requires
        at + 4 <= data@.len(),
    ensures
        v == le_uint(data@.subrange(at as int, at + 4)),
{
    let w = read_le(data, at, 4);
    proof {
        lemma_le_uint_bound(data@.subrange(at as int, at + 4));
        lemma_pow256_values();
    }
    w as u32
}

/// Reads a little-endian `u64` at `at`.
pub fn read_le_u64(data: &[u8], at: usize) -> (v: u64)
    requires
        at + 8 <= data@.len(),
    ensures
        v == le_uint(data@.subrange(at as int, at + 8)),
{
    read_le(data, at, 8)
}

} // verus!
