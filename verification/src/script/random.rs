//! The pseudo-random numbers of scripts.
use vstd::prelude::*;

verus! {

/// The state before the first draw.
pub const SEED: u64 = 0x1234_5678_9abc_def0;

pub open spec fn shift_left(x: u64, n: u64) -> u64 {
    x ^ (x << n)
}

pub open spec fn shift_right(x: u64, n: u64) -> u64 {
    x ^ (x >> n)
}

/// The state that follows a state (xorshift64).
pub open spec fn state_after(x: u64) -> u64 {
    shift_left(shift_right(shift_left(x, 13), 7), 17)
}

/// The state that follows a state. The number drawn is the new state in
/// proportion to the greatest.
pub fn next_state(x: u64) -> (r: u64)
    ensures
        r == state_after(x),
{
    let a: u64 = x ^ (x << 13);
    let b: u64 = a ^ (a >> 7);
    b ^ (b << 17)
}

/// A state that is not zero is never followed by zero, where the draws would
/// end.
pub proof fn states_stay_alive(x: u64)
    requires
        x != 0,
    ensures
        state_after(x) != 0,
{
    let a = shift_left(x, 13);
    let b = shift_right(a, 7);
    assert(x != 0 ==> x ^ (x << 13) != 0) by (bit_vector);
    assert(a != 0 ==> a ^ (a >> 7) != 0) by (bit_vector);
    assert(b != 0 ==> b ^ (b << 17) != 0) by (bit_vector);
}

} // verus!
