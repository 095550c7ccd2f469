//! Deterministic randomness source.
//!
//! Sampling the virtual polynomial, the mask and the blinding scalar needs a
//! stream of field elements. A linear-congruential generator over the field
//! keeps every draw a pure function of the seed, so sampled objects are
//! reproducible and fully specified.

use vstd::prelude::*;
use crate::field::{Fp, MODULUS, fp_wf, fadd, fmul};

verus! {

/// Multiplier of the congruential step.
pub const STEP_MUL: u64 = 0x1B03_738A_12C5_A3D5;

/// Increment of the congruential step.
pub const STEP_ADD: u64 = 0xB;

/// Successor state of the generator.
pub open spec fn rng_next(s: int) -> int {
    fadd(fmul(s, STEP_MUL as int), STEP_ADD as int)
}

/// A deterministic stream of field elements.
pub struct SeededRng {
    pub state: Fp,
}

impl SeededRng {
    /// Start the stream from a seed.
    pub fn new(seed: u64) -> (r: SeededRng)
        ensures
            fp_wf(r.state),
            r.state.v == seed % MODULUS,
    {
        SeededRng { state: Fp::from_u64(seed) }
    }

    /// Draw the next field element and advance the state.
    pub fn next_fp(&mut self) -> (r: Fp)
        requires
            fp_wf(old(self).state),
        ensures
            fp_wf(final(self).state),
            final(self).state.v == rng_next(old(self).state.v as int),
            r == final(self).state,
    {
        let m = Fp::from_u64(STEP_MUL);
        let a = Fp::from_u64(STEP_ADD);
        self.state = self.state.mul(m).add(a);
        self.state
    }
}

} // verus!
