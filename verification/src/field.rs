//! Prime-field scalars.
//!
//! Every protocol value is an element of the prime field of order
//! `MODULUS` (the Mersenne prime 2^61 - 1), held as a reduced `u64`.
//! Each operation's contract pins its result to the matching spec-level
//! modular expression, so callers reason purely over `int` arithmetic.

use vstd::prelude::*;

verus! {

/// Order of the scalar field: the Mersenne prime 2^61 - 1.
pub const MODULUS: u64 = 0x1FFF_FFFF_FFFF_FFFF;

/// A scalar of the prime field, stored fully reduced.
#[derive(Clone, Copy, Debug, PartialEq, Eq, Structural, Hash)]
pub struct Fp {
    pub v: u64,
}

/// A scalar is well formed when its representative is reduced.
pub open spec fn fp_wf(a: Fp) -> bool {
    a.v < MODULUS
}

/// Field addition on representatives.
pub open spec fn fadd(a: int, b: int) -> int {
    (a + b) % (MODULUS as int)
}

/// Field subtraction on representatives.
pub open spec fn fsub(a: int, b: int) -> int {
    (a - b) % (MODULUS as int)
}

/// Field multiplication on representatives.
pub open spec fn fmul(a: int, b: int) -> int {
    (a * b) % (MODULUS as int)
}

/// Modular exponentiation by square and multiply.
pub open spec fn fpow(base: int, exp: nat) -> int
    decreases exp,
{
    if exp == 0 {
        1int % (MODULUS as int)
    } else if exp % 2 == 0 {
        let h = fpow(base, exp / 2);
        fmul(h, h)
    } else {
        fmul(base, fpow(base, (exp - 1) as nat))
    }
}

/// Multiplicative inverse, defined through Fermat exponentiation.
pub open spec fn finv(a: int) -> int {
    fpow(a, (MODULUS - 2) as nat)
}

impl Fp {
    /// The additive identity.
    pub fn zero() -> (r: Fp)
        ensures
            fp_wf(r),
            r.v == 0,
    {
        Fp { v: 0 }
    }

    /// The multiplicative identity.
    pub fn one() -> (r: Fp)
        ensures
            fp_wf(r),
            r.v == 1,
    {
        Fp { v: 1 }
    }

    /// Reduce an arbitrary machine word into the field.
    pub fn from_u64(x: u64) -> (r: Fp)
        ensures
            fp_wf(r),
            r.v == x % MODULUS,
    {
        Fp { v: x % MODULUS }
    }

    /// Field addition.
    pub fn add(self, other: Fp) -> (r: Fp)
        requires
            fp_wf(self),
            fp_wf(other),
        ensures
            fp_wf(r),
            r.v == fadd(self.v as int, other.v as int),
    {
        Fp { v: (self.v + other.v) % MODULUS }
    }

    /// Field subtraction.
    pub fn sub(self, other: Fp) -> (r: Fp)
        requires
            fp_wf(self),
            fp_wf(other),
        ensures
            fp_wf(r),
            r.v == fsub(self.v as int, other.v as int),
    {
        let r = (self.v + MODULUS - other.v) % MODULUS;
        proof {
            let m = MODULUS as int;
            let d = self.v as int - other.v as int;
            assert((d + m) % m == d % m) by {
                vstd::arithmetic::div_mod::lemma_mod_add_multiples_vanish(d, m);
            }
        }
        Fp { v: r }
    }

    /// Field multiplication, through a double-width intermediate.
    pub fn mul(self, other: Fp) -> (r: Fp)
        requires
            fp_wf(self),
            fp_wf(other),
        ensures
            fp_wf(r),
            r.v == fmul(self.v as int, other.v as int),
    {
        proof {
            assert((self.v as int) * (other.v as int) < 0x4000_0000_0000_0000_0000_0000_0000_0000)
                by (nonlinear_arith)
                requires
                    self.v < 0x2000_0000_0000_0000,
                    other.v < 0x2000_0000_0000_0000,
            ;
        }
        let wide: u128 = (self.v as u128) * (other.v as u128);
        let red: u128 = wide % (MODULUS as u128);
        Fp { v: red as u64 }
    }

    /// Modular exponentiation by square and multiply.
    pub fn pow(self, exp: u64) -> (r: Fp)
        requires
            fp_wf(self),
        ensures
            fp_wf(r),
            r.v == fpow(self.v as int, exp as nat),
        decreases exp,
    {
        if exp == 0 {
            Fp { v: 1 }
        } else if exp % 2 == 0 {
            let h = self.pow(exp / 2);
            h.mul(h)
        } else {
            self.mul(self.pow(exp - 1))
        }
    }

    /// Multiplicative inverse by Fermat exponentiation; maps zero to zero.
    pub fn inv(self) -> (r: Fp)
        requires
            fp_wf(self),
        ensures
            fp_wf(r),
            r.v == finv(self.v as int),
    {
        self.pow(MODULUS - 2)
    }
}

} // verus!
