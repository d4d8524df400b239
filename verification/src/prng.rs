//! The xorshift32 generator that drives every stochastic choice of the engine.
use vstd::prelude::*;

verus! {

/// One xorshift32 step (shifts 13, 17, 5) on a 32-bit state.
pub open spec fn xorshift_step(x: u32) -> u32 {
    let a = x ^ (x << 13u32);
    let b = a ^ (a >> 17u32);
    b ^ (b << 5u32)
}

/// The state reached after `n` steps from `x`.
pub open spec fn xorshift_iter(x: u32, n: nat) -> u32
    decreases n,
{
    if n == 0 {
        x
    } else {
        xorshift_step(xorshift_iter(x, (n - 1) as nat))
    }
}

/// Advance an xorshift32 PRNG in place and return the new state.
pub fn xorshift32(state: &mut u32) -> (r: u32)
    ensures
        r == xorshift_step(*old(state)),
        *final(state) == r,
{
    let mut x = *state;
    x ^= x << 13u32;
    x ^= x >> 17u32;
    x ^= x << 5u32;
    *state = x;
    x
}

/// The generator state a user seed selects: zero, the one state from which
/// xorshift never leaves, is replaced by one.
pub fn seed_state(s: u32) -> (r: u32)
    ensures
        r == (if s == 0 { 1u32 } else { s }),
        r != 0,
{
    if s == 0 {
        1
    } else {
        s
    }
}

/// Zero is a fixed point of the generator.
pub proof fn lemma_zero_is_fixed()
    ensures
        xorshift_step(0) == 0,
{
    assert(xorshift_step(0) == 0) by (bit_vector);
}

/// A nonzero state never steps to zero.
pub proof fn lemma_step_nonzero(x: u32)
    requires
        x != 0,
    ensures
        xorshift_step(x) != 0,
{
    assert(x != 0 ==> ((x ^ (x << 13u32)) ^ ((x ^ (x << 13u32)) >> 17u32)) ^ (((x ^ (x << 13u32)) ^ ((x ^ (x << 13u32)) >> 17u32)) << 5u32) != 0) by (bit_vector);
}

/// Distinct states step to distinct states: the generator is a permutation of
/// the 32-bit states.
pub proof fn lemma_step_injective(x: u32, y: u32)
    requires
        x != y,
    ensures
        xorshift_step(x) != xorshift_step(y),
{
    let ax = x ^ (x << 13u32);
    let ay = y ^ (y << 13u32);
    let bx = ax ^ (ax >> 17u32);
    let by_ = ay ^ (ay >> 17u32);
    assert(x != y ==> (x ^ (x << 13u32)) != (y ^ (y << 13u32))) by (bit_vector);
    assert(ax != ay ==> (ax ^ (ax >> 17u32)) != (ay ^ (ay >> 17u32))) by (bit_vector);
    assert(bx != by_ ==> (bx ^ (bx << 5u32)) != (by_ ^ (by_ << 5u32))) by (bit_vector);
}

/// A seeded (nonzero) generator stays nonzero for any number of steps, so its
/// stream never collapses to the constant zero.
pub proof fn lemma_stream_stays_nonzero(x: u32, n: nat)
    requires
        x != 0,
    ensures
        xorshift_iter(x, n) != 0,
    decreases n,
{
    if n > 0 {
        lemma_stream_stays_nonzero(x, (n - 1) as nat);
        lemma_step_nonzero(xorshift_iter(x, (n - 1) as nat));
    }
}

} // verus!
