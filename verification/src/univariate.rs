//! Univariate evaluation by Lagrange interpolation.
//!
//! A round message lists a polynomial's values at the sample points
//! `0, 1, ..., D`. Its value anywhere else is the Lagrange combination
//! `sum_i evals[i] * prod_{j != i} (x - j) * inv(prod_{j != i} (i - j))`,
//! so no coefficient reconstruction is ever needed.

use vstd::prelude::*;
use crate::field::{Fp, MODULUS, fp_wf, fadd, fsub, fmul, finv};

verus! {

/// Product over `j` in `0..n`, `j != skip`, of `(x - j)` in the field.
pub open spec fn prod_skip(x: int, n: nat, skip: int) -> int
    decreases n,
{
    if n == 0 {
        1int % (MODULUS as int)
    } else if n - 1 == skip {
        prod_skip(x, (n - 1) as nat, skip)
    } else {
        fmul(prod_skip(x, (n - 1) as nat, skip), fsub(x, n - 1))
    }
}

/// Partial Lagrange sum over the first `k` sample points.
pub open spec fn interp_sum(evals: Seq<int>, x: int, k: nat) -> int
    decreases k,
{
    if k == 0 {
        0
    } else {
        fadd(
            interp_sum(evals, x, (k - 1) as nat),
            fmul(
                fmul(evals[k - 1], prod_skip(x, evals.len(), k - 1)),
                finv(prod_skip(k - 1, evals.len(), k - 1)),
            ),
        )
    }
}

/// Value at `x` of the polynomial with values `evals` at `0, 1, ..., len-1`.
#[verifier::opaque]
pub open spec fn uni_eval(evals: Seq<int>, x: int) -> int {
    interp_sum(evals, x, evals.len())
}

/// Model of a list of scalars as a sequence of representatives.
pub open spec fn fp_seq(v: Seq<Fp>) -> Seq<int> {
    v.map_values(|x: Fp| x.v as int)
}

/// All scalars of a list are reduced.
pub open spec fn fp_seq_wf(v: Seq<Fp>) -> bool {
    forall|i: int| 0 <= i < v.len() ==> fp_wf(#[trigger] v[i])
}

/// Product over `j` in `0..n`, `j != skip`, of `(x - j)`.
fn prod_skip_exec(x: Fp, n: usize, skip: usize) -> (r: Fp)
    requires
        fp_wf(x),
        n < 0x1000_0000,
    ensures
        fp_wf(r),
        r.v == prod_skip(x.v as int, n as nat, skip as int),
{
    let mut p = Fp::one();
    let mut j: usize = 0;
    while j < n
        invariant
            fp_wf(x),
            fp_wf(p),
            n < 0x1000_0000,
            0 <= j <= n,
            p.v == prod_skip(x.v as int, j as nat, skip as int),
        decreases n - j,
    {
        if j != skip {
            p = p.mul(x.sub(Fp::from_u64(j as u64)));
        }
        j = j + 1;
    }
    p
}

/// Evaluate the polynomial given by `evals` at the sample points
/// `0, 1, ..., evals.len() - 1` at an arbitrary scalar `x`.
pub fn evaluate_uni(evals: &Vec<Fp>, x: Fp) -> (r: Fp)
    requires
        fp_seq_wf(evals@),
        fp_wf(x),
        evals@.len() < 0x1000_0000,
    ensures
        fp_wf(r),
        r.v == uni_eval(fp_seq(evals@), x.v as int),
{
    proof {
        reveal(uni_eval);
    }
    let ghost model: Seq<int> = fp_seq(evals@);
    let n = evals.len();
    let mut acc = Fp::zero();
    let mut i: usize = 0;
    while i < n
        invariant
            fp_seq_wf(evals@),
            fp_wf(x),
            fp_wf(acc),
            model == fp_seq(evals@),
            n == evals@.len(),
            n < 0x1000_0000,
            0 <= i <= n,
            acc.v == interp_sum(model, x.v as int, i as nat),
        decreases n - i,
    {
        let num = prod_skip_exec(x, n, i);
        let den = prod_skip_exec(Fp::from_u64(i as u64), n, i);
        let term = evals[i].mul(num).mul(den.inv());
        acc = acc.add(term);
        i = i + 1;
    }
    acc
}

} // verus!
