//! Numbers in binary data.
use vstd::prelude::*;

verus! {

/// The number that bytes are, the most significant one first.
pub open spec fn be_value(s: Seq<u8>) -> nat
    decreases s.len(),
{
    if s.len() == 0 {
        0
    } else {
        be_value(s.drop_last()) * 256 + s.last() as nat
    }
}

/// The number that bytes are, the least significant one first.
pub open spec fn le_value(s: Seq<u8>) -> nat
    decreases s.len(),
{
    if s.len() == 0 {
        0
    } else {
        s[0] as nat + 256 * le_value(s.subrange(1, s.len() as int))
    }
}

/// The number at a position of `n` bytes, the most significant one first.
pub open spec fn be_at(data: Seq<u8>, from: int, n: int) -> nat {
    be_value(data.subrange(from, from + n))
}

/// The number at a position of `n` bytes, the least significant one first.
pub open spec fn le_at(data: Seq<u8>, from: int, n: int) -> nat {
    le_value(data.subrange(from, from + n))
}

/// 256 to the power of `n`.
pub open spec fn pow256(n: nat) -> nat
    decreases n,
{
    if n == 0 {
        1
    } else {
        256 * pow256((n - 1) as nat)
    }
}

pub proof fn lemma_pow256()
    ensures
        pow256(1) == 0x100,
        pow256(2) == 0x1_0000,
        pow256(4) == 0x1_0000_0000,
        pow256(8) == 0x1_0000_0000_0000_0000,
{
    reveal_with_fuel(pow256, 9);
}

pub proof fn lemma_be_bound(s: Seq<u8>)
    ensures
        be_value(s) < pow256(s.len()),
    decreases s.len(),
{
    if s.len() > 0 {
        lemma_be_bound(s.drop_last());
    }
}

pub proof fn lemma_pow256_mono(a: nat, b: nat)
    requires
        a <= b,
    ensures
        pow256(a) <= pow256(b),
    decreases b,
{
    if a < b {
        lemma_pow256_mono(a, (b - 1) as nat);
    }
}

/// The number in `n` bytes, at most eight.
pub fn be_u64(data: &[u8], from: usize, n: usize) -> (r: u64)
    requires
        n <= 8,
        from + n <= data@.len(),
    ensures
        r == be_at(data@, from as int, n as int),
        r < pow256(n as nat),
{
    let mut v: u64 = 0;
    let mut i: usize = 0;
    assert(data@.subrange(from as int, from as int) =~= Seq::<u8>::empty());
    while i < n
        invariant
            i <= n <= 8,
            from + n <= data.len(),
            v == be_at(data@, from as int, i as int),
        decreases n - i,
    {
        let ghost before = data@.subrange(from as int, from + i);
        let ghost after = data@.subrange(from as int, from + i + 1);
        proof {
            assert(after.drop_last() =~= before);
            lemma_be_bound(before);
            lemma_be_bound(after);
            lemma_pow256_mono((i + 1) as nat, 8);
            lemma_pow256();
        }
        v = v * 256 + data[from + i] as u64;
        i += 1;
    }
    proof {
        lemma_be_bound(data@.subrange(from as int, from + n));
    }
    v
}

pub proof fn lemma_le_bound(s: Seq<u8>)
    ensures
        le_value(s) < pow256(s.len()),
    decreases s.len(),
{
    if s.len() > 0 {
        lemma_le_bound(s.subrange(1, s.len() as int));
    }
}

/// The number in `n` bytes, at most eight, the least significant one first.
pub fn le_u64(data: &[u8], from: usize, n: usize) -> (r: u64)
    requires
        n <= 8,
        from + n <= data.len(),
    ensures
        r == le_at(data@, from as int, n as int),
        r < pow256(n as nat),
    decreases n,
{
    let ghost s = data@.subrange(from as int, from + n);
    proof {
        lemma_le_bound(s);
        lemma_pow256_mono(n as nat, 8);
        lemma_pow256();
    }
    if n == 0 {
        return 0;
    }
    let rest = le_u64(data, from + 1, n - 1);
    assert(s.subrange(1, s.len() as int) =~= data@.subrange(from + 1, from + n));
    data[from] as u64 + 256 * rest
}

pub fn be_u16(data: &[u8], from: usize) -> (r: u16)
    requires
        from + 2 <= data@.len(),
    ensures
        r == be_at(data@, from as int, 2),
{
    proof {
        lemma_pow256();
    }
    be_u64(data, from, 2) as u16
}

pub fn be_u32(data: &[u8], from: usize) -> (r: u32)
    requires
        from + 4 <= data@.len(),
    ensures
        r == be_at(data@, from as int, 4),
{
    proof {
        lemma_pow256();
    }
    be_u64(data, from, 4) as u32
}

/// The part of some bytes.
pub fn sub_slice(data: &[u8], from: usize, to: usize) -> (r: &[u8])
    requires
        from <= to <= data@.len(),
    ensures
        r@ == data@.subrange(from as int, to as int),
{
    vstd::slice::slice_subrange(data, from, to)
}

} // verus!
