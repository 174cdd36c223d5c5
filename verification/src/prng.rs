//! The game's pseudo-random generator: a 32-bit xorshift stepper.

use vstd::prelude::*;

verus! {

/// One advance of the generator: three xorshift rounds on a 32-bit state,
/// with the usual unsigned wraparound.
pub open spec fn spec_step(x: u32) -> u32 {
    let a = x ^ (x << 13u32);
    let b = a ^ (a >> 17u32);
    b ^ (b << 15u32)
}

/// Two advances: each draw consumes a probability roll and a slot roll.
pub open spec fn spec_step2(x: u32) -> u32 {
    spec_step(spec_step(x))
}

/// Advance the generator state once.
pub fn next_state(x: u32) -> (r: u32)
    ensures
        r == spec_step(x),
{
    let a = x ^ (x << 13u32);
    let b = a ^ (a >> 17u32);
    b ^ (b << 15u32)
}

/// 0 is a fixed point of the stepper, so it is excluded from the live seed
/// domain: a search over seeds starts at 1.
pub proof fn lemma_zero_is_fixed_point()
    ensures
        spec_step(0) == 0,
{
    assert(0u32 ^ (0u32 << 13u32) == 0u32) by (bit_vector);
    assert(0u32 ^ (0u32 >> 17u32) == 0u32) by (bit_vector);
    assert(0u32 ^ (0u32 << 15u32) == 0u32) by (bit_vector);
}

} // verus!
