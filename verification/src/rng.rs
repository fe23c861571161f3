//! The small generator behind noise, drift and sample-and-hold.

use vstd::prelude::*;

verus! {

/// The state after one step.
pub open spec fn stepped(x: u32) -> u32 {
    let a = x ^ (x << 13u32);
    let b = a ^ (a >> 17u32);
    b ^ (b << 5u32)
}

/// The state that a seed starts from: odd, so never zero.
pub open spec fn seeded(seed: u32) -> u32 {
    seed | 1
}

/// One step of the generator.
pub fn step(x: u32) -> (r: u32)
    ensures
        r == stepped(x),
{
    let a: u32 = x ^ (x << 13u32);
    let b: u32 = a ^ (a >> 17u32);
    b ^ (b << 5u32)
}

/// The state that a seed starts from.
pub fn seed_state(seed: u32) -> (r: u32)
    ensures
        r == seeded(seed),
        r != 0,
{
    assert(seed | 1 != 0) by (bit_vector);
    seed | 1
}

/// The generator never falls into the state it could not leave.
pub proof fn a_live_state_stays_live(x: u32)
    requires
        x != 0,
    ensures
        stepped(x) != 0,
{
    let a = x ^ (x << 13u32);
    let b = a ^ (a >> 17u32);
    assert(x != 0 ==> x ^ (x << 13u32) != 0) by (bit_vector);
    assert(a != 0 ==> a ^ (a >> 17u32) != 0) by (bit_vector);
    assert(b != 0 ==> b ^ (b << 5u32) != 0) by (bit_vector);
}

/// Two different states step to two different states.
pub proof fn states_never_merge(x: u32, y: u32)
    requires
        stepped(x) == stepped(y),
    ensures
        x == y,
{
    let a = x ^ (x << 13u32);
    let b = a ^ (a >> 17u32);
    let c = y ^ (y << 13u32);
    let d = c ^ (c >> 17u32);
    assert(b ^ (b << 5u32) == d ^ (d << 5u32) ==> b == d) by (bit_vector);
    assert(a ^ (a >> 17u32) == c ^ (c >> 17u32) ==> a == c) by (bit_vector);
    assert(x ^ (x << 13u32) == y ^ (y << 13u32) ==> x == y) by (bit_vector);
}

/// A seed starts from a state that the generator can leave.
pub proof fn seeds_are_live(seed: u32)
    ensures
        seeded(seed) != 0,
{
    assert(seed | 1 != 0) by (bit_vector);
}

/// A step, bit by bit: each bit of the next state is the parity of the bits of this one
/// that stand where three shifts, by 13 up, 17 down and 5 up, bring them.
pub proof fn a_step_mixes_three_shifts(x: u32)
    ensures
        stepped(x) == x ^ (x << 13u32) ^ (x >> 17u32) ^ ((x << 13u32) >> 17u32) ^ (x << 5u32) ^ (x
            << 18u32) ^ ((x >> 17u32) << 5u32) ^ (((x << 13u32) >> 17u32) << 5u32),
{
    let a = x ^ (x << 13u32);
    let b = a ^ (a >> 17u32);
    assert(b ^ (b << 5u32) == x ^ (x << 13u32) ^ (x >> 17u32) ^ ((x << 13u32) >> 17u32) ^ (x
        << 5u32) ^ (x << 18u32) ^ ((x >> 17u32) << 5u32) ^ (((x << 13u32) >> 17u32) << 5u32))
        by (bit_vector)
        requires
            a == x ^ (x << 13u32),
            b == a ^ (a >> 17u32),
    ;
}

/// A seed that is odd is its own start, and an even one starts next to itself.
pub proof fn a_seed_starts_at_an_odd_number(seed: u32)
    ensures
        seed % 2 == 1 ==> seeded(seed) == seed,
        seed % 2 == 0 ==> seeded(seed) == seed + 1,
{
    assert(seed % 2 == 1 ==> seed | 1 == seed) by (bit_vector);
    assert(seed % 2 == 0 ==> seed | 1 == seed + 1) by (bit_vector);
}

} // verus!
