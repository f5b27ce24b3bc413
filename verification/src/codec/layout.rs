//! How numbers are laid out in binary data, the other way round from reading.
use crate::codec::wire::{be_at, be_value, le_at, le_value, pow256};
use vstd::prelude::*;

verus! {

/// The `k` bytes of a number, the most significant one first.
pub open spec fn be_bytes(n: nat, k: nat) -> Seq<u8>
    decreases k,
{
    if k == 0 {
        Seq::empty()
    } else {
        be_bytes(n / 256, (k - 1) as nat).push((n % 256) as u8)
    }
}

/// The `k` bytes of a number, the least significant one first.
pub open spec fn le_bytes(n: nat, k: nat) -> Seq<u8>
    decreases k,
{
    if k == 0 {
        Seq::empty()
    } else {
        Seq::empty().push((n % 256) as u8) + le_bytes(n / 256, (k - 1) as nat)
    }
}

/// Whether bytes stand in data at a position.
pub open spec fn stands_at(d: Seq<u8>, at: int, s: Seq<u8>) -> bool {
    0 <= at && at + s.len() <= d.len() && d.subrange(at, at + s.len()) == s
}

pub proof fn lemma_be_bytes(n: nat, k: nat)
    ensures
        be_bytes(n, k).len() == k,
        n < pow256(k) ==> be_value(be_bytes(n, k)) == n,
    decreases k,
{
    if k > 0 {
        let front = be_bytes(n / 256, (k - 1) as nat);
        lemma_be_bytes(n / 256, (k - 1) as nat);
        assert(be_bytes(n, k).drop_last() =~= front);
        if n < pow256(k) {
            assert(n / 256 < pow256((k - 1) as nat));
        }
    }
}

pub proof fn lemma_le_bytes(n: nat, k: nat)
    ensures
        le_bytes(n, k).len() == k,
        n < pow256(k) ==> le_value(le_bytes(n, k)) == n,
    decreases k,
{
    if k > 0 {
        let rest = le_bytes(n / 256, (k - 1) as nat);
        lemma_le_bytes(n / 256, (k - 1) as nat);
        let s = le_bytes(n, k);
        assert(s.subrange(1, s.len() as int) =~= rest);
        if n < pow256(k) {
            assert(n / 256 < pow256((k - 1) as nat));
        }
    }
}

/// A number that fits is read back from where its bytes stand, the most
/// significant one first.
pub proof fn number_is_read_back(d: Seq<u8>, at: int, n: nat, k: nat)
    requires
        n < pow256(k),
        stands_at(d, at, be_bytes(n, k)),
    ensures
        be_at(d, at, k as int) == n,
{
    lemma_be_bytes(n, k);
}

/// A number that fits is read back from where its bytes stand, the least
/// significant one first.
pub proof fn reversed_number_is_read_back(d: Seq<u8>, at: int, n: nat, k: nat)
    requires
        n < pow256(k),
        stands_at(d, at, le_bytes(n, k)),
    ensures
        le_at(d, at, k as int) == n,
{
    lemma_le_bytes(n, k);
}

/// What stands in a part of the data stands in the data.
pub proof fn lemma_stands_within(d: Seq<u8>, at: int, s: Seq<u8>, off: int, x: Seq<u8>)
    requires
        stands_at(d, at, s),
        stands_at(s, off, x),
    ensures
        stands_at(d, at + off, x),
{
    assert(d.subrange(at + off, at + off + x.len()) =~= s.subrange(off, off + x.len()));
}

} // verus!
