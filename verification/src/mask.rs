//! Random masking polynomial.
//!
//! The mask has the shape `g(x_1, ..., x_n) = g_1(x_1) + ... + g_n(x_n)`,
//! one independently sampled univariate `g_i` of degree `d` per variable,
//! each held as its values at the sample points `0, 1, ..., d`. Blended
//! into each round message with the blinding scalar `rho`, it hides the
//! partial sums of the virtual polynomial while shifting the hypercube sum
//! by a publicly recomputable amount: summing `g` over the whole hypercube
//! gives `2^(n-1) * sum_i (g_i(0) + g_i(1))`.

use vstd::prelude::*;
use crate::field::{Fp, fp_wf, fadd, fmul, fpow};
use crate::univariate::{fp_seq, fp_seq_wf, uni_eval, evaluate_uni};
use crate::rng::SeededRng;
use crate::errors::SumCheckError;
use crate::poly::MAX_NUM_VARS;

verus! {

/// Model of a mask: per variable, the reduced values of its univariate.
pub open spec fn mask_model(m: RandomMaskPolynomial) -> Seq<Seq<int>> {
    m.evaluations@.map_values(|row: Vec<Fp>| fp_seq(row@))
}

/// A mask over `nv` variables with degree bound `d` is well formed when it
/// has one row of `d + 1` reduced values per variable.
pub open spec fn mask_wf(m: RandomMaskPolynomial, nv: nat, d: nat) -> bool {
    &&& m.evaluations@.len() == nv
    &&& d >= 1
    &&& forall|i: int|
        0 <= i < m.evaluations@.len() ==> (#[trigger] m.evaluations@[i])@.len() == d + 1
            && fp_seq_wf(m.evaluations@[i]@)
}

/// Sum of `g_i(0) + g_i(1)` over the rows from `from` on.
pub open spec fn mask_tail_sum(rows: Seq<Seq<int>>, from: nat) -> int
    decreases rows.len() - from,
{
    if from >= rows.len() {
        0
    } else {
        fadd(fadd(rows[from as int][0], rows[from as int][1]), mask_tail_sum(rows, from + 1))
    }
}

/// Sum over the first `k` rows of `g_i` evaluated at coordinate `i` of
/// `point`.
pub open spec fn mask_eval_partial(rows: Seq<Seq<int>>, point: Seq<int>, k: nat) -> int
    decreases k,
{
    if k == 0 {
        0
    } else {
        fadd(
            mask_eval_partial(rows, point, (k - 1) as nat),
            uni_eval(rows[k - 1], point[k - 1]),
        )
    }
}

/// Value of the mask at `point`.
pub open spec fn mask_eval(rows: Seq<Seq<int>>, point: Seq<int>) -> int {
    mask_eval_partial(rows, point, rows.len())
}

/// The mask's sum over its whole Boolean hypercube.
pub open spec fn mask_cube_sum(rows: Seq<Seq<int>>, nv: nat) -> int {
    if nv == 0 {
        0
    } else {
        fmul(fpow(2, (nv - 1) as nat), mask_tail_sum(rows, 0))
    }
}

/// Per-variable random univariates blinding the round messages.
pub struct RandomMaskPolynomial {
    pub evaluations: Vec<Vec<Fp>>,
}

impl RandomMaskPolynomial {
    /// Sample a mask over `num_vars` variables with degree bound `degree`,
    /// returning it together with its sum over the Boolean hypercube.
    pub fn rand(num_vars: usize, degree: usize, rng: &mut SeededRng) -> (r: (
        RandomMaskPolynomial,
        Fp,
    ))
        requires
            fp_wf(old(rng).state),
            1 <= num_vars <= MAX_NUM_VARS,
            1 <= degree <= 64,
        ensures
            fp_wf(final(rng).state),
            mask_wf(r.0, num_vars as nat, degree as nat),
            fp_wf(r.1),
            r.1.v == mask_cube_sum(mask_model(r.0), num_vars as nat),
    {
        let mut rows: Vec<Vec<Fp>> = Vec::new();
        let mut i: usize = 0;
        while i < num_vars
            invariant
                fp_wf(rng.state),
                1 <= degree <= 64,
                0 <= i <= num_vars,
                rows@.len() == i,
                forall|k: int|
                    0 <= k < rows@.len() ==> (#[trigger] rows@[k])@.len() == degree + 1
                        && fp_seq_wf(rows@[k]@),
            decreases num_vars - i,
        {
            let mut row: Vec<Fp> = Vec::new();
            let mut j: usize = 0;
            while j < degree + 1
                invariant
                    fp_wf(rng.state),
                    degree <= 64,
                    0 <= j <= degree + 1,
                    row@.len() == j,
                    fp_seq_wf(row@),
                decreases degree + 1 - j,
            {
                row.push(rng.next_fp());
                j = j + 1;
            }
            rows.push(row);
            i = i + 1;
        }
        let mask = RandomMaskPolynomial { evaluations: rows };
        let ghost rows_model: Seq<Seq<int>> = mask_model(mask);
        let mut tail = Fp::zero();
        let mut k: usize = num_vars;
        while k > 0
            invariant
                mask_wf(mask, num_vars as nat, degree as nat),
                rows_model == mask_model(mask),
                0 <= k <= num_vars,
                fp_wf(tail),
                tail.v == mask_tail_sum(rows_model, k as nat),
            decreases k,
        {
            k = k - 1;
            let row = &mask.evaluations[k];
            tail = row[0].add(row[1]).add(tail);
        }
        let half_count = Fp::from_u64(2).pow((num_vars - 1) as u64);
        let sum = half_count.mul(tail);
        (mask, sum)
    }

    /// Evaluate the mask at an arbitrary point; refused when the point's
    /// dimension differs from the mask's variable count.
    pub fn eval(&self, point: &Vec<Fp>) -> (r: Result<Fp, SumCheckError>)
        requires
            forall|i: int|
                0 <= i < self.evaluations@.len() ==> fp_seq_wf(
                    (#[trigger] self.evaluations@[i])@,
                ) && 1 <= self.evaluations@[i]@.len() < 0x1000_0000,
            fp_seq_wf(point@),
        ensures
            r is Ok <==> point@.len() == self.evaluations@.len(),
            r is Err ==> r == Result::<Fp, SumCheckError>::Err(SumCheckError::InvalidInput),
            r is Ok ==> fp_wf(r->Ok_0) && r->Ok_0.v == mask_eval(mask_model(*self), fp_seq(point@)),
    {
        if point.len() != self.evaluations.len() {
            return Err(SumCheckError::InvalidInput);
        }
        let ghost rows: Seq<Seq<int>> = mask_model(*self);
        let ghost pt: Seq<int> = fp_seq(point@);
        let mut acc = Fp::zero();
        let mut i: usize = 0;
        while i < self.evaluations.len()
            invariant
                forall|k: int|
                    0 <= k < self.evaluations@.len() ==> fp_seq_wf(
                        (#[trigger] self.evaluations@[k])@,
                    ) && 1 <= self.evaluations@[k]@.len() < 0x1000_0000,
                fp_seq_wf(point@),
                point@.len() == self.evaluations@.len(),
                rows == mask_model(*self),
                pt == fp_seq(point@),
                fp_wf(acc),
                0 <= i <= self.evaluations@.len(),
                acc.v == mask_eval_partial(rows, pt, i as nat),
            decreases self.evaluations@.len() - i,
        {
            let v = evaluate_uni(&self.evaluations[i], point[i]);
            acc = acc.add(v);
            i = i + 1;
        }
        Ok(acc)
    }
}

} // verus!
