//! Numbers of variable length: seven bits per byte, the lowest first, and a
//! mark on each byte but the last.
use vstd::prelude::*;

verus! {

/// 128 to the power of `k`.
pub open spec fn pow128(k: nat) -> nat
    decreases k,
{
    if k == 0 {
        1
    } else {
        128 * pow128((k - 1) as nat)
    }
}

/// The number of the bytes from `at` on, of which `k` were read before and gave
/// `acc`, and the position behind the last byte read. There is none where the
/// data ends before the number does, or where ten bytes do not end it. Bits
/// beyond 64 are lost.
pub open spec fn varint_from(d: Seq<u8>, at: int, k: nat, acc: nat) -> (Option<u64>, int)
    decreases 10 - k,
{
    if at < 0 || at >= d.len() || k >= 10 {
        (None, at)
    } else {
        let v = acc + (d[at] % 128) * pow128(k);
        if d[at] < 128 {
            (Some((v % 0x1_0000_0000_0000_0000) as u64), at + 1)
        } else if k == 9 {
            (None, at + 1)
        } else {
            varint_from(d, at + 1, k + 1, v as nat)
        }
    }
}

/// The number at a position, and the position behind it.
pub open spec fn varint(d: Seq<u8>, at: int) -> (Option<u64>, int) {
    varint_from(d, at, 0, 0)
}

pub proof fn lemma_varint_from(d: Seq<u8>, at: int, k: nat, acc: nat)
    requires
        0 <= at <= d.len(),
    ensures
        at <= varint_from(d, at, k, acc).1 <= d.len(),
        varint_from(d, at, k, acc).0 is Some ==> at < varint_from(d, at, k, acc).1,
    decreases 10 - k,
{
    if at < d.len() && k < 10 && d[at] >= 128 && k < 9 {
        lemma_varint_from(d, at + 1, k + 1, (acc + (d[at] % 128) * pow128(k)) as nat);
    }
}

/// Reading a number moves on by at least one byte and stays within the data.
pub proof fn varint_moves_on(d: Seq<u8>, at: int)
    requires
        0 <= at <= d.len(),
    ensures
        at <= varint(d, at).1 <= d.len(),
        varint(d, at).0 is Some ==> at < varint(d, at).1,
{
    lemma_varint_from(d, at, 0, 0);
}

/// A signed number folded into an unsigned one: 0, -1, 1, -2 and so on.
pub open spec fn zigzag(n: u64) -> int {
    if n % 2 == 0 {
        n as int / 2
    } else {
        -(n as int / 2) - 1
    }
}

/// The bytes of a number.
pub open spec fn varint_bytes(n: nat) -> Seq<u8>
    decreases n,
{
    if n < 128 {
        seq![n as u8]
    } else {
        seq![(128 + n % 128) as u8] + varint_bytes(n / 128)
    }
}

/// The unsigned number that stands for a signed one.
pub open spec fn zigzag_of(n: int) -> int {
    if n >= 0 {
        2 * n
    } else {
        -2 * n - 1
    }
}

/// Every signed number comes back from the unsigned one that stands for it.
pub proof fn zigzag_round_trip(n: i64)
    ensures
        0 <= zigzag_of(n as int) <= u64::MAX,
        zigzag(zigzag_of(n as int) as u64) == n,
{
}

proof fn lemma_pow128()
    ensures
        pow128(0) == 1,
        pow128(1) == 0x80,
        pow128(2) == 0x4000,
        pow128(3) == 0x20_0000,
        pow128(4) == 0x1000_0000,
        pow128(5) == 0x8_0000_0000,
        pow128(6) == 0x400_0000_0000,
        pow128(7) == 0x2_0000_0000_0000,
        pow128(8) == 0x100_0000_0000_0000,
        pow128(9) == 0x8000_0000_0000_0000,
        pow128(10) == 0x40_0000_0000_0000_0000,
{
    reveal_with_fuel(pow128, 11);
}

proof fn lemma_varint_round(d: Seq<u8>, at: int, n: nat, k: nat, acc: nat)
    requires
        0 <= at,
        k < 10,
        acc < pow128(k),
        acc + n * pow128(k) <= u64::MAX,
        at + varint_bytes(n).len() <= d.len(),
        d.subrange(at, at + varint_bytes(n).len()) == varint_bytes(n),
    ensures
        varint_from(d, at, k, acc) == (
            Some((acc + n * pow128(k)) as u64),
            at + varint_bytes(n).len(),
        ),
    decreases n,
{
    let b = varint_bytes(n);
    assert(d[at] == d.subrange(at, at + b.len())[0]);
    lemma_pow128();
    if n >= 128 {
        let rest = varint_bytes(n / 128);
        let p = pow128(k);
        assert(b.len() == 1 + rest.len());
        assert(d[at] as int == 128 + n % 128);
        assert(d[at] % 128 == n % 128);
        let v = (acc + (n % 128) * p) as nat;
        assert(pow128(k + 1) == 128 * p);
        assert(v < 128 * p && v + (n / 128) * (128 * p) == acc + n * p) by (nonlinear_arith)
            requires
                acc < p,
                v == acc + (n % 128) * p,
                p > 0,
        ;
        assert(k < 9) by {
            if k == 9 {
                assert(n * p >= 128 * p) by (nonlinear_arith)
                    requires
                        n >= 128,
                ;
            }
        }
        assert(d.subrange(at + 1, at + 1 + rest.len()) =~= rest) by {
            assert forall|i: int| 0 <= i < rest.len() implies #[trigger] d.subrange(
                at + 1,
                at + 1 + rest.len(),
            )[i] == rest[i] by {
                assert(d.subrange(at, at + b.len())[i + 1] == b[i + 1]);
            }
        }
        lemma_varint_round(d, at + 1, n / 128, k + 1, v);
    } else {
        assert(d[at] as nat == n);
        assert(d[at] % 128 == n);
    }
}

/// A number that is written is read again, whatever stands behind it.
pub proof fn varint_round_trip(d: Seq<u8>, at: int, n: u64)
    requires
        0 <= at,
        at + varint_bytes(n as nat).len() <= d.len(),
        d.subrange(at, at + varint_bytes(n as nat).len()) == varint_bytes(n as nat),
    ensures
        varint(d, at) == (Some(n), at + varint_bytes(n as nat).len()),
{
    lemma_pow128();
    lemma_varint_round(d, at, n as nat, 0, 0);
}

/// Reads the number at `offset` and moves behind it.
pub fn read_varint(data: &[u8], offset: &mut usize) -> (r: Option<u64>)
    ensures
        *old(offset) <= data@.len() ==> (r, *final(offset) as int) == varint(
            data@,
            *old(offset) as int,
        ),
        *old(offset) > data@.len() ==> r is None && *final(offset) == *old(offset),
        *old(offset) <= data@.len() ==> *old(offset) <= *final(offset) <= data@.len(),
        r is Some ==> *old(offset) < *final(offset),
{
    let mut result: u64 = 0;
    let mut unit: u64 = 1;
    let mut k: u64 = 0;
    let start: usize = *offset;
    proof {
        lemma_pow128();
    }
    while *offset < data.len()
        invariant
            start == *old(offset),
            k <= 9,
            start <= *offset,
            *offset <= data@.len() || *offset == start,
            k > 0 ==> start < *offset,
            unit == pow128(k as nat),
            result < pow128(k as nat),
            start <= data@.len() ==> varint(data@, start as int) == varint_from(
                data@,
                *offset as int,
                k as nat,
                result as nat,
            ),
        decreases 10 - k,
    {
        proof {
            lemma_pow128();
        }
        let byte = data[*offset];
        *offset = *offset + 1;
        let low = (byte % 128) as u64;
        assert(low * unit <= 127 * unit) by (nonlinear_arith)
            requires
                low <= 127,
        ;
        if k == 9 {
            assert((result + low * 0x8000_0000_0000_0000) % 0x1_0000_0000_0000_0000 == result + (low
                % 2) * 0x8000_0000_0000_0000);
            if byte >= 128 {
                return None;
            }
            return Some(result + (low % 2) * 0x8000_0000_0000_0000);
        }
        assert(unit <= 0x100_0000_0000_0000) by {
            assert(k <= 8);
        }
        result = result + low * unit;
        if byte < 128 {
            return Some(result);
        }
        assert(pow128((k + 1) as nat) == 128 * unit);
        unit = unit * 128;
        k = k + 1;
    }
    None
}

/// The signed number that an unsigned one stands for.
pub fn unfold(n: u64) -> (r: i64)
    ensures
        r == zigzag(n),
{
    if n % 2 == 0 {
        (n / 2) as i64
    } else {
        -((n / 2) as i64) - 1
    }
}

} // verus!
