//! The explicit, seeded random stream threaded through sampling and
//! scattering.
//!
//! Every draw is an exact function of the generator state, so a render with
//! a fixed seed is reproducible bit for bit: two generators started from the
//! same seed yield the same stream.  The generator is a 64-bit xorshift with
//! a multiplicative output scramble.

use vstd::prelude::*;

verus! {

/// Output scramble factor.
pub const SCRAMBLE: u64 = 0x2545F4914F6CDD1D;

/// Replacement for the all-zero seed, on which a xorshift state would stick.
pub const ZERO_SEED: u64 = 0x9E3779B97F4A7C15;

/// The state after one xorshift step.
#[verifier::opaque]
pub open spec fn next_state_spec(s: u64) -> u64 {
    let a = s ^ (s << 13);
    let b = a ^ (a >> 7);
    b ^ (b << 17)
}

/// The value one draw yields from state `s`.
#[verifier::opaque]
pub open spec fn output_spec(s: u64) -> u64 {
    next_state_spec(s).wrapping_mul(SCRAMBLE)
}

pub struct Rng {
    pub state: u64,
}

impl Rng {
    pub fn new(seed: u64) -> (r: Rng)
        ensures
            r.state == if seed == 0 {
                ZERO_SEED
            } else {
                seed
            },
    {
        if seed == 0 {
            Rng { state: ZERO_SEED }
        } else {
            Rng { state: seed }
        }
    }

    /// Draw one 64-bit value; the new state and the value are exact
    /// functions of the old state.
    pub fn next_u64(&mut self) -> (r: u64)
        ensures
            final(self).state == next_state_spec(old(self).state),
            r == output_spec(old(self).state),
    {
        proof {
            reveal(next_state_spec);
            reveal(output_spec);
        }
        let a = self.state ^ (self.state << 13u64);
        let b = a ^ (a >> 7u64);
        let c = b ^ (b << 17u64);
        self.state = c;
        c.wrapping_mul(SCRAMBLE)
    }

    /// Draw a value below `n`.
    pub fn next_below(&mut self, n: u64) -> (r: u64)
        requires
            n > 0,
        ensures
            final(self).state == next_state_spec(old(self).state),
            r == output_spec(old(self).state) % n,
            r < n,
    {
        let v = self.next_u64();
        v % n
    }

    /// Draw a value in `[-bound, bound]`.
    pub fn next_signed(&mut self, bound: i64) -> (r: i64)
        requires
            0 < bound <= 0x1000000000000000,
        ensures
            final(self).state == next_state_spec(old(self).state),
            r == output_spec(old(self).state) % ((2 * bound + 1) as u64) - bound,
            -bound <= r <= bound,
    {
        let width: u64 = 2 * (bound as u64) + 1;
        let v = self.next_below(width);
        (v as i64) - bound
    }
}

} // verus!
