//! A small deterministic pseudo-random source.
//!
//! The sampling and scattering code draws its randomness from an explicit
//! generator value that is threaded through every call, so a render is a
//! pure function of the scene, the camera and the seed, and every contract
//! in the crate can state results exactly.  A fresh seed may be taken from
//! the operating system through [`Rng::from_entropy`].

use crate::fixed::{Fx, FX_SCALE};
use vstd::prelude::*;

verus! {

/// State that replaces an all-zero seed, which the xorshift step would
/// never leave.
pub const RNG_DEFAULT_SEED: u64 = 0x9E3779B97F4A7C15;

/// One xorshift step of the generator state.
pub open spec fn rng_next(s: u64) -> u64 {
    let a = s ^ (s << 13);
    let b = a ^ (a >> 7);
    b ^ (b << 17)
}

/// The raw fixed-point value in `[0, 1)` drawn from a generator state.
pub open spec fn unit_from(s: u64) -> int {
    (s % (FX_SCALE as u64)) as int
}

/// A deterministic xorshift pseudo-random generator.
pub struct Rng {
    pub state: u64,
}

impl View for Rng {
    type V = u64;

    open spec fn view(&self) -> u64 {
        self.state
    }
}

/// Relies on `rand::random`: a pseudo-random 64-bit value from the
/// process-wide generator.  Nothing is promised of the value.
#[verifier::external_body]
fn entropy_seed() -> u64 {
    rand::random::<u64>()
}

impl Rng {
    /// A generator starting from the given seed; an all-zero seed is
    /// replaced, since the xorshift step never leaves it.
    pub fn from_seed(seed: u64) -> (r: Rng)
        ensures
            r@ == if seed == 0 {
                RNG_DEFAULT_SEED as u64
            } else {
                seed
            },
    {
        if seed == 0 {
            Rng { state: RNG_DEFAULT_SEED }
        } else {
            Rng { state: seed }
        }
    }

    /// A generator seeded from the ambient random source, for renders
    /// that should differ from run to run.
    pub fn from_entropy() -> (r: Rng)
        ensures
            r@ != 0,
    {
        let seed = entropy_seed();
        Rng::from_seed(seed)
    }

    /// Advance the generator and draw a scalar in `[0, 1)`.
    pub fn next_unit(&mut self) -> (r: Fx)
        ensures
            final(self)@ == rng_next(old(self)@),
            r@ == unit_from(rng_next(old(self)@)),
            0 <= r@ < (FX_SCALE as int),
    {
        let s: u64 = self.state;
        let a: u64 = s ^ (s << 13u64);
        let b: u64 = a ^ (a >> 7u64);
        let c: u64 = b ^ (b << 17u64);
        self.state = c;
        let m: u64 = c % (FX_SCALE as u64);
        Fx { raw: m as i64 }
    }
}

} // verus!
