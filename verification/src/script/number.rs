//! Integers that pass through double precision.
use vstd::prelude::*;

verus! {

/// `n` rounded to a multiple of `unit`; the even multiple where two are
/// equally near.
pub open spec fn round_to(n: nat, unit: nat) -> nat {
    let q = n / unit;
    let r = n % unit;
    if 2 * r < unit || (2 * r == unit && q % 2 == 0) {
        q * unit
    } else {
        (q + 1) * unit
    }
}

/// The distance between doubles at `n`, at least 1: a double holds 53 binary
/// digits.
pub open spec fn spacing(n: nat, unit: nat) -> nat
    decreases n / unit,
{
    if unit == 0 || n / unit < 0x20_0000_0000_0000 {
        unit
    } else {
        proof {
            assert(n / (2 * unit) < n / unit) by (nonlinear_arith)
                requires
                    unit > 0,
                    n / unit >= 2,
            ;
        }
        spacing(n, 2 * unit)
    }
}

/// The double nearest to an integer, taken back to an integer within reach.
pub open spec fn nearest(n: int) -> int {
    if n < 0 {
        -(round_to((-n) as nat, spacing((-n) as nat, 1)) as int)
    } else {
        let m = round_to(n as nat, spacing(n as nat, 1)) as int;
        if m > i64::MAX {
            i64::MAX as int
        } else {
            m
        }
    }
}

/// Up to 2 to the power of 53, every integer is a double.
pub proof fn small_integers_are_doubles(n: int)
    requires
        -0x20_0000_0000_0000 <= n <= 0x20_0000_0000_0000,
    ensures
        nearest(n) == n,
{
    let m = if n < 0 {
        (-n) as nat
    } else {
        n as nat
    };
    assert(m / 1 == m && m % 1 == 0);
    if m < 0x20_0000_0000_0000 {
        assert(spacing(m, 1) == 1);
    } else {
        reveal_with_fuel(spacing, 3);
        assert(m / 2 == 0x10_0000_0000_0000 && m % 2 == 0);
        assert(spacing(m, 1) == 2);
    }
}

fn round_magnitude(n: u64) -> (r: u64)
    requires
        n <= 0x8000_0000_0000_0000,
    ensures
        r == round_to(n as nat, spacing(n as nat, 1)),
        r <= 0x8000_0000_0000_0000,
{
    let mut unit: u64 = 1;
    let mut k: u64 = 0;
    assert(1u64 << 0u64 == 1) by (bit_vector);
    while n / unit >= 0x20_0000_0000_0000
        invariant
            n <= 0x8000_0000_0000_0000,
            k <= 11,
            unit == 1u64 << k,
            1 <= unit <= 2048,
            spacing(n as nat, 1) == spacing(n as nat, unit as nat),
        decreases 12 - k,
    {
        assert(unit < 2048) by {
            if unit == 2048 {
                assert(n / 2048 < 0x20_0000_0000_0000);
            }
        }
        assert(k < 11) by {
            assert(1u64 << 11u64 == 2048) by (bit_vector);
        }
        assert((1u64 << k) * 2 == 1u64 << ((k + 1) as u64) && (1u64 << ((k + 1) as u64)) <= 2048)
            by (bit_vector)
            requires
                k < 11,
        ;
        unit = unit * 2;
        k = k + 1;
    }
    let q: u64 = n / unit;
    let rest: u64 = n % unit;
    let up: bool = !(2 * rest < unit || (2 * rest == unit && q % 2 == 0));
    assert(q * unit <= n) by (nonlinear_arith)
        requires
            q == n / unit,
            unit > 0,
    ;
    if up {
        proof {
            lemma_round_up_fits(n, unit, k);
        }
        (q + 1) * unit
    } else {
        q * unit
    }
}

proof fn lemma_round_up_fits(n: u64, unit: u64, k: u64)
    requires
        n <= 0x8000_0000_0000_0000,
        k <= 11,
        unit == 1u64 << k,
        1 <= unit <= 2048,
        n % unit != 0 || n < 0x8000_0000_0000_0000,
        2 * (n % unit) >= unit,
    ensures
        (n / unit + 1) * unit <= 0x8000_0000_0000_0000,
{
    assert(0x8000_0000_0000_0000u64 % (1u64 << k) == 0) by (bit_vector)
        requires
            k <= 11,
    ;
    let top = 0x8000_0000_0000_0000u64;
    let m = top / unit;
    assert(m * unit == top) by (nonlinear_arith)
        requires
            m == top / unit,
            top % unit == 0,
            unit > 0,
    ;
    let q = n / unit;
    let r = n % unit;
    assert(n == q * unit + r && r < unit) by (nonlinear_arith)
        requires
            q == n / unit,
            r == n % unit,
            unit > 0,
    ;
    assert(r > 0);
    assert(q < m) by (nonlinear_arith)
        requires
            n == q * unit + r,
            r > 0,
            n <= top,
            m * unit == top,
            unit > 0,
    ;
    assert((q + 1) * unit <= m * unit) by (nonlinear_arith)
        requires
            q + 1 <= m,
            unit > 0,
    ;
}

/// The double nearest to an integer, taken back to an integer within reach.
pub fn near(n: i64) -> (r: i64)
    ensures
        r == nearest(n as int),
{
    if n < 0 {
        let m: u64 = if n == i64::MIN {
            0x8000_0000_0000_0000
        } else {
            (-n) as u64
        };
        let k = round_magnitude(m);
        if k == 0x8000_0000_0000_0000 {
            i64::MIN
        } else {
            -(k as i64)
        }
    } else {
        let k = round_magnitude(n as u64);
        if k >= 0x8000_0000_0000_0000 {
            i64::MAX
        } else {
            k as i64
        }
    }
}

} // verus!
