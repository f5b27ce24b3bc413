//! Integers among the doubles.
use vstd::arithmetic::power2::{lemma2_to64, lemma_pow2_unfold, pow2};
use vstd::prelude::*;

verus! {

/// The exponent of a double, as its bit pattern holds it.
pub open spec fn exponent(bits: u64) -> int {
    (bits as int / 0x10_0000_0000_0000) % 2048
}

/// The significand of a double, an integer below 2 to the power of 53.
pub open spec fn significand(bits: u64) -> nat {
    let fraction = (bits as int % 0x10_0000_0000_0000) as nat;
    if exponent(bits) == 0 {
        fraction
    } else {
        fraction + 0x10_0000_0000_0000
    }
}

/// The power of two that the significand of a double is multiplied with.
pub open spec fn scale(bits: u64) -> int {
    if exponent(bits) == 0 {
        -1074
    } else {
        exponent(bits) - 1075
    }
}

/// `m` times 2 to the power of `s`, where that is an integer below 2 to the power
/// of 63.
pub open spec fn scaled(m: nat, s: int) -> Option<nat>
    decreases
            if s < 0 {
                -s
            } else {
                s
            },
{
    if m == 0 || s == 0 {
        Some(m)
    } else if s > 0 {
        if m >= 0x4000_0000_0000_0000 {
            None
        } else {
            scaled(2 * m, s - 1)
        }
    } else if m % 2 != 0 {
        None
    } else {
        scaled(m / 2, s + 1)
    }
}

/// The integer that a double is, where it is one and its magnitude is below 2 to
/// the power of 63.
pub open spec fn whole_v(bits: u64) -> Option<int> {
    if exponent(bits) == 2047 {
        None
    } else {
        match scaled(significand(bits), scale(bits)) {
            None => None,
            Some(n) => if bits >= 0x8000_0000_0000_0000 {
                Some(-n)
            } else {
                Some(n as int)
            },
        }
    }
}

/// The integer that a double is, where it is one and its magnitude is below 2 to
/// the power of 63.
pub fn whole(bits: u64) -> (r: Option<i64>)
    ensures
        match r {
            Some(n) => whole_v(bits) == Some(n as int),
            None => whole_v(bits) is None,
        },
{
    let e: u64 = (bits / 0x10_0000_0000_0000) % 2048;
    if e == 2047 {
        return None;
    }
    let fraction: u64 = bits % 0x10_0000_0000_0000;
    let mut m: u64 = if e == 0 {
        fraction
    } else {
        fraction + 0x10_0000_0000_0000
    };
    let mut s: i64 = if e == 0 {
        -1074
    } else {
        e as i64 - 1075
    };
    while m != 0 && s != 0
        invariant
            m < 0x8000_0000_0000_0000,
            -1074 <= s <= 971,
            exponent(bits) != 2047,
            scaled(significand(bits), scale(bits)) == scaled(m as nat, s as int),
        decreases
                if s < 0 {
                    -s
                } else {
                    s as int
                },
    {
        if s > 0 {
            if m >= 0x4000_0000_0000_0000 {
                return None;
            }
            m = 2 * m;
            s = s - 1;
        } else {
            if m % 2 != 0 {
                return None;
            }
            m = m / 2;
            s = s + 1;
        }
    }
    if bits >= 0x8000_0000_0000_0000 {
        Some(-(m as i64))
    } else {
        Some(m as i64)
    }
}

pub open spec fn product(a: nat, b: nat) -> nat {
    a * b
}

/// What is given as `m` times 2 to the power of `s` is that, exactly; and where
/// nothing is given, it is no integer or too large.
pub proof fn scaled_is_exact(m: nat, s: int)
    requires
        m < 0x8000_0000_0000_0000,
    ensures
        match scaled(m, s) {
            Some(n) => n < 0x8000_0000_0000_0000 && (if s >= 0 {
                n == m * pow2(s as nat)
            } else {
                n * pow2((-s) as nat) == m
            }),
            None => if s >= 0 {
                m * pow2(s as nat) >= 0x8000_0000_0000_0000
            } else {
                forall|n: nat| #[trigger] product(n, pow2((-s) as nat)) != m
            },
        },
    decreases
            if s < 0 {
                -s
            } else {
                s
            },
{
    lemma2_to64();
    if m == 0 {
        assert(0 * pow2(s as nat) == 0 && 0 * pow2((-s) as nat) == 0);
    } else if s > 0 {
        lemma_pow2_unfold(s as nat);
        let half = pow2((s - 1) as nat);
        assert(m * pow2(s as nat) == (2 * m) * half) by (nonlinear_arith)
            requires
                pow2(s as nat) == 2 * half,
        ;
        if m < 0x4000_0000_0000_0000 {
            scaled_is_exact(2 * m, s - 1);
        } else {
            vstd::arithmetic::power2::lemma_pow2_pos((s - 1) as nat);
            assert((2 * m) * half >= 2 * m) by (nonlinear_arith)
                requires
                    half >= 1,
            ;
        }
    } else if s < 0 {
        lemma_pow2_unfold((-s) as nat);
        let half = pow2((-s - 1) as nat);
        assert(pow2((-s) as nat) == 2 * half);
        if m % 2 == 0 {
            scaled_is_exact(m / 2, s + 1);
            match scaled(m, s) {
                Some(n) => {
                    assert(n * (2 * half) == 2 * (n * half)) by (nonlinear_arith);
                },
                None => {
                    assert forall|n: nat| #[trigger] product(n, pow2((-s) as nat)) != m by {
                        assert(n * (2 * half) == 2 * (n * half)) by (nonlinear_arith);
                        assert(product(n, pow2((-(s + 1)) as nat)) != m / 2);
                    }
                },
            }
        } else {
            assert forall|n: nat| #[trigger] product(n, pow2((-s) as nat)) != m by {
                assert(n * (2 * half) == 2 * (n * half)) by (nonlinear_arith);
            }
        }
    }
}

} // verus!
