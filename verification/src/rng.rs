//! The weight-initialization generator.
//!
//! Layer parameters start from pseudo-random draws. The generator is a
//! deterministic 64-bit mixing sequence owned and seeded explicitly by the
//! caller, so a construction can be reproduced exactly; every step is
//! verified bit arithmetic, and each draw's value is pinned by the
//! contracts. A draw is mapped into `[-1, 1)`, the symmetric range the
//! training-stability argument asks of the initial weights.

use crate::fp::{fp_mul, fp_of_int, fp_sub, mul_bits, of_int_bits, sub_bits, B_ONE, B_TWO};
use vstd::prelude::*;

verus! {

/// Bit encoding of 2^-53, the scale from a 53-bit draw to `[0, 1)`.
pub const B_TWO_NEG_53: u64 = 0x3CA0000000000000;

/// The additive constant of the state sequence.
pub const SM_GAMMA: u64 = 0x9E3779B97F4A7C15;
/// The two multiplicative mixing constants.
pub const SM_MIX1: u64 = 0xBF58476D1CE4E5B9;
pub const SM_MIX2: u64 = 0x94D049BB133111EB;

/// Addition on 64 bits, wrapping.
pub open spec fn wadd64(a: u64, b: u64) -> u64 {
    ((a + b) % 0x1_0000_0000_0000_0000) as u64
}

/// Multiplication on 64 bits, wrapping.
pub open spec fn wmul64(a: u64, b: u64) -> u64 {
    ((a * b) % 0x1_0000_0000_0000_0000) as u64
}

/// The state that follows `s`.
pub open spec fn rng_next_state(s: u64) -> u64 {
    wadd64(s, SM_GAMMA)
}

/// The 64-bit output mixed out of a state.
pub open spec fn rng_mix(z0: u64) -> u64 {
    let z1 = wmul64(z0 ^ (z0 >> 30), SM_MIX1);
    let z2 = wmul64(z1 ^ (z1 >> 27), SM_MIX2);
    z2 ^ (z2 >> 31)
}

/// The weight drawn from one 64-bit output: the top 53 bits scaled into
/// `[0, 1)`, then stretched to `[-1, 1)` as `u * 2 - 1`.
pub open spec fn weight_of_draw(x: u64) -> u64 {
    fp_sub(fp_mul(fp_mul(fp_of_int((x >> 11) as int), B_TWO_NEG_53), B_TWO), B_ONE)
}

/// The state after `n` draws from state `s`.
pub open spec fn rng_state_after(s: u64, n: nat) -> u64
    decreases n,
{
    if n == 0 {
        s
    } else {
        rng_next_state(rng_state_after(s, (n - 1) as nat))
    }
}

/// The sequence of `n` weights drawn from state `s`.
pub open spec fn weight_seq(s: u64, n: nat) -> Seq<u64>
    decreases n,
{
    if n == 0 {
        Seq::empty()
    } else {
        weight_seq(s, (n - 1) as nat).push(
            weight_of_draw(rng_mix(rng_state_after(s, n))),
        )
    }
}

/// The explicitly seeded generator handle that weight initialization draws
/// from.
pub struct WeightRng {
    pub state: u64,
}

impl WeightRng {
    /// A generator starting from the given seed.
    pub fn new(seed: u64) -> (r: WeightRng)
        ensures
            r.state == seed,
    {
        WeightRng { state: seed }
    }

    /// One raw 64-bit draw: advance the state, mix it out.
    pub fn next_u64(&mut self) -> (r: u64)
        ensures
            final(self).state == rng_next_state(old(self).state),
            r == rng_mix(rng_next_state(old(self).state)),
    {
        let s0: u128 = self.state as u128 + SM_GAMMA as u128;
        let s: u64 = (s0 % 0x1_0000_0000_0000_0000u128) as u64;
        self.state = s;
        let z1: u64 = ((((s ^ (s >> 30)) as u128) * (SM_MIX1 as u128))
            % 0x1_0000_0000_0000_0000u128) as u64;
        let z2: u64 = ((((z1 ^ (z1 >> 27)) as u128) * (SM_MIX2 as u128))
            % 0x1_0000_0000_0000_0000u128) as u64;
        z2 ^ (z2 >> 31)
    }

    /// One weight in `[-1, 1)`.
    pub fn next_weight(&mut self) -> (r: u64)
        ensures
            final(self).state == rng_next_state(old(self).state),
            r == weight_of_draw(rng_mix(rng_next_state(old(self).state))),
    {
        let x: u64 = self.next_u64();
        assert(x >> 11 < 0x8000000000000000) by (bit_vector);
        let hi: u64 = x >> 11;
        let uf: u64 = of_int_bits(hi as i64);
        sub_bits(mul_bits(mul_bits(uf, B_TWO_NEG_53), B_TWO), B_ONE)
    }
}

} // verus!
