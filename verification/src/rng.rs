//! A deterministic pseudo-random source for sampling.
//!
//! Every draw is a pure function of the generator's state, so a render
//! from a fixed seed is reproducible; a fresh seed can be taken from
//! the process's entropy through `Rng::from_entropy`.

use vstd::prelude::*;

use crate::fixed::FX_ONE;

verus! {

/// The additive constant of the state walk.
pub const STATE_STEP: u64 = 0x9E3779B97F4A7C15;

/// The two multiplicative mixing constants.
pub const MIX_A: u64 = 0xBF58476D1CE4E5B9;

pub const MIX_B: u64 = 0x94D049BB133111EB;

/// A small splittable generator: a counter state and an output mix.
#[derive(Clone, Copy, Debug, PartialEq, Eq, Structural)]
pub struct Rng {
    pub state: u64,
}

/// Wrapping 64-bit product.
pub open spec fn wmul_s(a: u64, b: u64) -> u64 {
    ((a * b) % 0x1_0000_0000_0000_0000) as u64
}

/// Wrapping 64-bit sum.
pub open spec fn wadd_s(a: u64, b: u64) -> u64 {
    ((a + b) % 0x1_0000_0000_0000_0000) as u64
}

/// The state after one draw.
pub open spec fn next_state_s(s: u64) -> u64 {
    wadd_s(s, STATE_STEP)
}

/// The value drawn at a state: the state xor-shifted and mixed twice.
#[verifier::opaque]
pub open spec fn output_s(s: u64) -> u64 {
    let z0 = wmul_s(s ^ (s >> 30), MIX_A);
    let z1 = wmul_s(z0 ^ (z0 >> 27), MIX_B);
    z1 ^ (z1 >> 31)
}

/// A draw in `[0, FX_ONE)`.
pub open spec fn unit_of_s(z: u64) -> i64 {
    (z % 65536) as i64
}

/// A draw in `[-FX_ONE, FX_ONE)`.
pub open spec fn symmetric_of_s(z: u64) -> i64 {
    ((z % 131072) - 65536) as i64
}

/// Wrapping product, computed through 128 bits.
fn wmul(a: u64, b: u64) -> (r: u64)
    ensures
        r == wmul_s(a, b),
{
    proof {
        crate::fixed::lemma_mul_bound(a as int, b as int, 0xFFFF_FFFF_FFFF_FFFF, 0xFFFF_FFFF_FFFF_FFFF);
    }
    let p: u128 = a as u128 * b as u128;
    (p % 0x1_0000_0000_0000_0000) as u64
}

/// Wrapping sum, computed through 128 bits.
fn wadd(a: u64, b: u64) -> (r: u64)
    ensures
        r == wadd_s(a, b),
{
    let p: u128 = a as u128 + b as u128;
    (p % 0x1_0000_0000_0000_0000) as u64
}

impl Rng {
    /// A generator from a fixed seed.
    pub fn from_seed(seed: u64) -> (r: Rng)
        ensures
            r.state == seed,
    {
        Rng { state: seed }
    }

    /// A generator seeded from the process's entropy.
    pub fn from_entropy() -> (r: Rng) {
        Rng { state: entropy_seed() }
    }

    /// One full-width draw: steps the state and mixes it.
    pub fn next_u64(&mut self) -> (r: u64)
        ensures
            final(self).state == next_state_s(old(self).state),
            r == output_s(next_state_s(old(self).state)),
    {
        proof {
            reveal(output_s);
        }
        self.state = wadd(self.state, STATE_STEP);
        let s: u64 = self.state;
        let z0: u64 = wmul(s ^ (s >> 30u64), MIX_A);
        let z1: u64 = wmul(z0 ^ (z0 >> 27u64), MIX_B);
        z1 ^ (z1 >> 31u64)
    }

    /// A draw in `[0, FX_ONE)`.
    pub fn next_unit(&mut self) -> (r: i64)
        ensures
            final(self).state == next_state_s(old(self).state),
            r == unit_of_s(output_s(next_state_s(old(self).state))),
            0 <= r < FX_ONE,
    {
        let z: u64 = self.next_u64();
        (z % 65536) as i64
    }

    /// A draw in `[-FX_ONE, FX_ONE)`.
    pub fn next_symmetric(&mut self) -> (r: i64)
        ensures
            final(self).state == next_state_s(old(self).state),
            r == symmetric_of_s(output_s(next_state_s(old(self).state))),
            -FX_ONE <= r < FX_ONE,
    {
        let z: u64 = self.next_u64();
        (z % 131072) as i64 - 65536
    }
}

/// Relies on `rand::random`: one machine-entropy value, of which
/// nothing further is assumed.
#[verifier::external_body]
fn entropy_seed() -> u64 {
    rand::random::<u64>()
}

} // verus!
