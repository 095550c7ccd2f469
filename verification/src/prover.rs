//! Prover state machine.
//!
//! The prover walks one round per variable. Entering round `k > 0` it first
//! binds the leading free variable of every factor table (and of the mask's
//! bound-variable account) to the previous round's challenge, halving each
//! table. It then emits the round message: the values, at each sample point
//! `x` in `0..=D`, of the sum over the remaining hypercube of the virtual
//! polynomial's products plus `rho` times the mask, with the current
//! variable fixed to `x`.

use vstd::prelude::*;
use crate::field::{Fp, fp_wf, fadd, fsub, fmul, fpow};
use crate::univariate::{fp_seq, fp_seq_wf, uni_eval, evaluate_uni};
use crate::poly::{
    MleTable, ProductTerm, VirtualPolynomial, table_model, table_wf, term_model, fold_seq, pow2,
    vp_model, vp_wf, MAX_NUM_VARS, clone_fp_vec,
};
use crate::mask::{RandomMaskPolynomial, mask_model, mask_wf, mask_tail_sum};
use crate::errors::SumCheckError;

verus! {

/// Model of a term list: one `(coefficient, tables)` pair per term.
pub open spec fn terms_model(ts: Seq<ProductTerm>) -> Seq<(int, Seq<Seq<int>>)> {
    ts.map_values(|t: ProductTerm| term_model(t))
}

/// One table's value with its leading variable at `x` and the remaining
/// variables at the bits of `b`.
pub open spec fn table_at(t: Seq<int>, x: int, b: int) -> int {
    fadd(t[2 * b], fmul(x, fsub(t[2 * b + 1], t[2 * b])))
}

/// Product of the first `k` tables' values at `(x, b)`.
pub open spec fn factors_at(ts: Seq<Seq<int>>, k: nat, x: int, b: int) -> int
    decreases k,
{
    if k == 0 {
        1int % (crate::field::MODULUS as int)
    } else {
        fmul(factors_at(ts, (k - 1) as nat, x, b), table_at(ts[k - 1], x, b))
    }
}

/// One term's contribution summed over the first `h` points of the
/// remaining hypercube, with the current variable at `x`.
pub open spec fn term_cube_sum(c: int, ts: Seq<Seq<int>>, x: int, h: nat) -> int
    decreases h,
{
    if h == 0 {
        0
    } else {
        fadd(term_cube_sum(c, ts, x, (h - 1) as nat), fmul(c, factors_at(ts, ts.len(), x, h - 1)))
    }
}

/// Sum of the first `k` terms' hypercube contributions at `x`.
pub open spec fn terms_sum(terms: Seq<(int, Seq<Seq<int>>)>, k: nat, x: int, h: nat) -> int
    decreases k,
{
    if k == 0 {
        0
    } else {
        fadd(
            terms_sum(terms, (k - 1) as nat, x, h),
            term_cube_sum(terms[k - 1].0, terms[k - 1].1, x, h),
        )
    }
}

/// The mask's contribution to one message entry: `2^(free-1)` copies of the
/// already-bound rows plus the current row at `x`, and `2^(free-2)` copies
/// of each still-free row's `g(0) + g(1)`.
pub open spec fn mask_contrib(g_x: int, bound: int, tail: int, hf: int, qf: int) -> int {
    fadd(fmul(hf, fadd(bound, g_x)), fmul(qf, tail))
}

/// One entry of a round message.
pub open spec fn msg_entry(
    terms: Seq<(int, Seq<Seq<int>>)>,
    x: int,
    h: nat,
    rho: int,
    g_x: int,
    bound: int,
    tail: int,
    hf: int,
    qf: int,
) -> int {
    fadd(terms_sum(terms, terms.len(), x, h), fmul(rho, mask_contrib(g_x, bound, tail, hf, qf)))
}

/// The whole message of round `round` (0-based), over already-folded terms.
#[verifier::opaque]
pub open spec fn round_msg(
    terms: Seq<(int, Seq<Seq<int>>)>,
    rows: Seq<Seq<int>>,
    bound: int,
    round: nat,
    nv: nat,
    deg: nat,
    rho: int,
) -> Seq<int> {
    Seq::new(
        (deg + 1) as nat,
        |x: int|
            msg_entry(
                terms,
                x,
                pow2((nv - round - 1) as nat),
                rho,
                rows[round as int][x],
                bound,
                mask_tail_sum(rows, round + 1),
                fpow(2, (nv - round - 1) as nat),
                if round + 1 < nv {
                    fpow(2, (nv - round - 2) as nat)
                } else {
                    0
                },
            ),
    )
}

/// All tables folded by the challenge `r`.
pub open spec fn fold_tables(ts: Seq<Seq<int>>, r: int) -> Seq<Seq<int>> {
    ts.map_values(|t: Seq<int>| fold_seq(t, r))
}

/// All terms folded by the challenge `r`.
pub open spec fn fold_terms(terms: Seq<(int, Seq<Seq<int>>)>, r: int) -> Seq<
    (int, Seq<Seq<int>>),
> {
    terms.map_values(|p: (int, Seq<Seq<int>>)| (p.0, fold_tables(p.1, r)))
}

/// Prover state: folding tables, the mask, the challenge record and the
/// running sum of bound mask rows.
pub struct ZkSumCheckProverState {
    pub num_vars: usize,
    pub degree: usize,
    pub round: usize,
    pub challenges: Vec<Fp>,
    pub terms: Vec<ProductTerm>,
    pub mask: RandomMaskPolynomial,
    pub bound_sum: Fp,
}

/// Well-formedness of a prover state between rounds.
pub open spec fn prover_wf(s: ZkSumCheckProverState) -> bool {
    &&& 1 <= s.num_vars <= MAX_NUM_VARS
    &&& 1 <= s.degree < 0xFFF_FFFF
    &&& s.round <= s.num_vars
    &&& s.challenges@.len() == if s.round == 0 {
        0int
    } else {
        s.round - 1
    }
    &&& fp_seq_wf(s.challenges@)
    &&& mask_wf(s.mask, s.num_vars as nat, s.degree as nat)
    &&& fp_wf(s.bound_sum)
    &&& forall|i: int|
        0 <= i < s.terms@.len() ==> {
            &&& fp_wf((#[trigger] s.terms@[i]).coefficient)
            &&& 1 <= s.terms@[i].factors@.len() <= s.degree
            &&& forall|j: int|
                0 <= j < s.terms@[i].factors@.len() ==> table_wf(
                    #[trigger] s.terms@[i].factors@[j],
                ) && s.terms@[i].factors@[j].num_vars == s.num_vars - s.challenges@.len()
        }
}

/// Terms after binding the previous challenge, if one was supplied.
pub open spec fn step_terms(s: ZkSumCheckProverState, ch: Option<Fp>) -> Seq<
    (int, Seq<Seq<int>>),
> {
    match ch {
        Option::Some(c) => fold_terms(terms_model(s.terms@), c.v as int),
        Option::None => terms_model(s.terms@),
    }
}

/// Bound-row sum after binding the previous challenge, if one was supplied.
pub open spec fn step_bound(s: ZkSumCheckProverState, ch: Option<Fp>) -> int {
    match ch {
        Option::Some(c) => fadd(
            s.bound_sum.v as int,
            uni_eval(mask_model(s.mask)[s.round - 1], c.v as int),
        ),
        Option::None => s.bound_sum.v as int,
    }
}

/// `2^n`, executably.
pub fn pow2_exec(n: usize) -> (r: usize)
    requires
        n <= MAX_NUM_VARS,
    ensures
        r == pow2(n as nat),
{
    proof {
        lemma_pow2_bound(n as nat);
    }
    let mut r: usize = 1;
    let mut i: usize = 0;
    while i < n
        invariant
            n <= MAX_NUM_VARS,
            0 <= i <= n,
            r == pow2(i as nat),
            pow2(n as nat) <= 0x200_0000,
        decreases n - i,
    {
        proof {
            lemma_pow2_mono((i + 1) as nat, n as nat);
        }
        r = r * 2;
        i = i + 1;
    }
    r
}

/// `2^n` stays below `2^25` for `n <= 25`.
pub proof fn lemma_pow2_bound(n: nat)
    requires
        n <= 25,
    ensures
        pow2(n) <= 0x200_0000,
{
    lemma_pow2_mono(n, 25);
    reveal_with_fuel(pow2, 26);
    assert(pow2(25) == 0x200_0000);
}

/// `2^a <= 2^b` for `a <= b`.
pub proof fn lemma_pow2_mono(a: nat, b: nat)
    requires
        a <= b,
    ensures
        pow2(a) <= pow2(b),
        pow2(a) >= 1,
    decreases b,
{
    if b > 0 {
        if a == b {
            lemma_pow2_mono((a - 1) as nat, (b - 1) as nat);
        } else {
            lemma_pow2_mono(a, (b - 1) as nat);
        }
    }
}

/// One term's contribution at sample point `x`, summed over the remaining
/// hypercube of `half` points.
fn term_cube(term: &ProductTerm, xf: Fp, half: usize) -> (r: Fp)
    requires
        fp_wf(xf),
        fp_wf(term.coefficient),
        term.factors@.len() >= 1,
        forall|j: int|
            0 <= j < term.factors@.len() ==> table_wf(#[trigger] term.factors@[j])
                && term.factors@[j].evals@.len() == 2 * half,
    ensures
        fp_wf(r),
        r.v == term_cube_sum(
            term_model(*term).0,
            term_model(*term).1,
            xf.v as int,
            half as nat,
        ),
{
    let ghost c: int = term_model(*term).0;
    let ghost ts: Seq<Seq<int>> = term_model(*term).1;
    let mut acc = Fp::zero();
    let mut b: usize = 0;
    while b < half
        invariant
            fp_wf(xf),
            fp_wf(term.coefficient),
            term.factors@.len() >= 1,
            forall|j: int|
                0 <= j < term.factors@.len() ==> table_wf(#[trigger] term.factors@[j])
                    && term.factors@[j].evals@.len() == 2 * half,
            c == term_model(*term).0,
            ts == term_model(*term).1,
            fp_wf(acc),
            0 <= b <= half,
            acc.v == term_cube_sum(c, ts, xf.v as int, b as nat),
        decreases half - b,
    {
        let mut prod = Fp::one();
        let mut j: usize = 0;
        while j < term.factors.len()
            invariant
                fp_wf(xf),
                forall|k: int|
                    0 <= k < term.factors@.len() ==> table_wf(#[trigger] term.factors@[k])
                        && term.factors@[k].evals@.len() == 2 * half,
                ts == term_model(*term).1,
                0 <= b < half,
                fp_wf(prod),
                0 <= j <= term.factors@.len(),
                prod.v == factors_at(ts, j as nat, xf.v as int, b as int),
            decreases term.factors@.len() - j,
        {
            let f = &term.factors[j];
            let len = f.evals.len();
            proof {
                assert(len == 2 * half);
            }
            let lo = f.evals[2 * b];
            let hi = f.evals[2 * b + 1];
            let v = lo.add(xf.mul(hi.sub(lo)));
            prod = prod.mul(v);
            j = j + 1;
        }
        acc = acc.add(term.coefficient.mul(prod));
        b = b + 1;
    }
    acc
}

/// All terms' contributions at sample point `x`, summed over the remaining
/// hypercube.
fn terms_cube(terms: &Vec<ProductTerm>, xf: Fp, half: usize) -> (r: Fp)
    requires
        fp_wf(xf),
        forall|i: int|
            0 <= i < terms@.len() ==> {
                &&& fp_wf((#[trigger] terms@[i]).coefficient)
                &&& terms@[i].factors@.len() >= 1
                &&& forall|j: int|
                    0 <= j < terms@[i].factors@.len() ==> table_wf(
                        #[trigger] terms@[i].factors@[j],
                    ) && terms@[i].factors@[j].evals@.len() == 2 * half
            },
    ensures
        fp_wf(r),
        r.v == terms_sum(terms_model(terms@), terms@.len() as nat, xf.v as int, half as nat),
{
    let ghost tm: Seq<(int, Seq<Seq<int>>)> = terms_model(terms@);
    let mut acc = Fp::zero();
    let mut i: usize = 0;
    while i < terms.len()
        invariant
            fp_wf(xf),
            forall|k: int|
                0 <= k < terms@.len() ==> {
                    &&& fp_wf((#[trigger] terms@[k]).coefficient)
                    &&& terms@[k].factors@.len() >= 1
                    &&& forall|j: int|
                        0 <= j < terms@[k].factors@.len() ==> table_wf(
                            #[trigger] terms@[k].factors@[j],
                        ) && terms@[k].factors@[j].evals@.len() == 2 * half
                },
            tm == terms_model(terms@),
            fp_wf(acc),
            0 <= i <= terms@.len(),
            acc.v == terms_sum(tm, i as nat, xf.v as int, half as nat),
        decreases terms@.len() - i,
    {
        let t = term_cube(&terms[i], xf, half);
        acc = acc.add(t);
        i = i + 1;
    }
    acc
}

/// Copy one product term.
fn clone_term(t: &ProductTerm) -> (r: ProductTerm)
    ensures
        r.coefficient == t.coefficient,
        r.factors@.len() == t.factors@.len(),
        forall|j: int|
            0 <= j < t.factors@.len() ==> (#[trigger] r.factors@[j]).num_vars
                == t.factors@[j].num_vars && r.factors@[j].evals@ == t.factors@[j].evals@,
        term_model(r) == term_model(*t),
{
    let mut factors: Vec<MleTable> = Vec::new();
    let mut j: usize = 0;
    while j < t.factors.len()
        invariant
            0 <= j <= t.factors@.len(),
            factors@.len() == j,
            forall|k: int|
                0 <= k < j ==> (#[trigger] factors@[k]).num_vars == t.factors@[k].num_vars
                    && factors@[k].evals@ == t.factors@[k].evals@,
        decreases t.factors@.len() - j,
    {
        factors.push(t.factors[j].duplicate());
        j = j + 1;
    }
    let r = ProductTerm { coefficient: t.coefficient, factors };
    proof {
        assert(term_model(r).1 =~= term_model(*t).1);
    }
    r
}

/// Copy the mask's rows.
fn clone_mask(m: &RandomMaskPolynomial) -> (r: RandomMaskPolynomial)
    ensures
        r.evaluations@.len() == m.evaluations@.len(),
        forall|i: int|
            0 <= i < m.evaluations@.len() ==> (#[trigger] r.evaluations@[i])@
                == m.evaluations@[i]@,
        mask_model(r) == mask_model(*m),
{
    let mut rows: Vec<Vec<Fp>> = Vec::new();
    let mut i: usize = 0;
    while i < m.evaluations.len()
        invariant
            0 <= i <= m.evaluations@.len(),
            rows@.len() == i,
            forall|k: int|
                0 <= k < i ==> (#[trigger] rows@[k])@ == m.evaluations@[k]@,
        decreases m.evaluations@.len() - i,
    {
        rows.push(clone_fp_vec(&m.evaluations[i]));
        i = i + 1;
    }
    let r = RandomMaskPolynomial { evaluations: rows };
    proof {
        assert(mask_model(r) =~= mask_model(*m));
    }
    r
}

impl ZkSumCheckProverState {
    /// Start a proving session for `poly` blinded by `mask`.
    ///
    /// Refused when the mask's variable count differs from the
    /// polynomial's, when its rows are not all of one length `d + 1` with
    /// `d` at least the polynomial's largest term degree, or when the row
    /// length exceeds the machine bound on sample counts.
    pub fn prover_init(poly: &VirtualPolynomial, mask: &RandomMaskPolynomial) -> (r: Result<
        ZkSumCheckProverState,
        SumCheckError,
    >)
        requires
            vp_wf(*poly),
            forall|i: int|
                0 <= i < mask.evaluations@.len() ==> fp_seq_wf(
                    (#[trigger] mask.evaluations@[i])@,
                ),
        ensures
            r is Ok <==> poly.aux_info.num_variables >= 1 && exists|d: nat|
                1 <= d < 0xFFF_FFFF && d >= poly.aux_info.max_degree && mask_wf(
                    *mask,
                    poly.aux_info.num_variables as nat,
                    d,
                ),
            r is Err ==> r == Result::<ZkSumCheckProverState, SumCheckError>::Err(
                SumCheckError::InvalidInput,
            ),
            r is Ok ==> {
                let s = r->Ok_0;
                &&& prover_wf(s)
                &&& s.num_vars == poly.aux_info.num_variables
                &&& s.degree + 1 == mask.evaluations@[0]@.len()
                &&& s.round == 0
                &&& s.challenges@.len() == 0
                &&& s.bound_sum.v == 0
                &&& terms_model(s.terms@) == vp_model(*poly)
                &&& mask_model(s.mask) == mask_model(*mask)
            },
    {
        let nv = poly.aux_info.num_variables;
        if nv == 0 || mask.evaluations.len() != nv {
            return Err(SumCheckError::InvalidInput);
        }
        let row0_len = mask.evaluations[0].len();
        if row0_len < 2 || row0_len >= 0x1000_0000 {
            proof {
                assert(forall|d: nat|
                    mask_wf(*mask, nv as nat, d) ==> d + 1 == mask.evaluations@[0]@.len());
            }
            return Err(SumCheckError::InvalidInput);
        }
        let degree = row0_len - 1;
        if degree < poly.aux_info.max_degree {
            proof {
                assert(forall|d: nat|
                    mask_wf(*mask, nv as nat, d) ==> d + 1 == mask.evaluations@[0]@.len());
            }
            return Err(SumCheckError::InvalidInput);
        }
        let mut i: usize = 0;
        while i < nv
            invariant
                mask.evaluations@.len() == nv,
                degree + 1 == row0_len,
                row0_len == mask.evaluations@[0]@.len(),
                0 <= i <= nv,
                forall|k: int|
                    0 <= k < i ==> (#[trigger] mask.evaluations@[k])@.len() == degree + 1,
            decreases nv - i,
        {
            if mask.evaluations[i].len() != degree + 1 {
                proof {
                    assert(forall|d: nat|
                        mask_wf(*mask, nv as nat, d) ==> (#[trigger] mask.evaluations@[
                            i as int])@.len() == d + 1 && d + 1 == mask.evaluations@[0]@.len());
                }
                return Err(SumCheckError::InvalidInput);
            }
            i = i + 1;
        }
        let mut terms: Vec<ProductTerm> = Vec::new();
        let mut k: usize = 0;
        while k < poly.products.len()
            invariant
                vp_wf(*poly),
                0 <= k <= poly.products@.len(),
                terms@.len() == k,
                forall|t: int| 0 <= t < k ==> #[trigger] terms_model(terms@)[t] == vp_model(
                    *poly,
                )[t],
                forall|t: int|
                    0 <= t < k ==> {
                        &&& (#[trigger] terms@[t]).coefficient == poly.products@[t].coefficient
                        &&& terms@[t].factors@.len() == poly.products@[t].factors@.len()
                        &&& forall|j: int|
                            0 <= j < terms@[t].factors@.len()
                                ==> (#[trigger] terms@[t].factors@[j]).num_vars
                                == poly.products@[t].factors@[j].num_vars
                                && terms@[t].factors@[j].evals@
                                == poly.products@[t].factors@[j].evals@
                    },
            decreases poly.products@.len() - k,
        {
            terms.push(clone_term(&poly.products[k]));
            k = k + 1;
        }
        let state = ZkSumCheckProverState {
            num_vars: nv,
            degree,
            round: 0,
            challenges: Vec::new(),
            terms,
            mask: clone_mask(mask),
            bound_sum: Fp::zero(),
        };
        proof {
            assert(terms_model(state.terms@) =~= vp_model(*poly));
            assert(mask_wf(*mask, nv as nat, degree as nat));
        }
        Ok(state)
    }
}

impl ZkSumCheckProverState {
    /// Bind the previous round's challenge, if any, then emit this round's
    /// message: the blinded partial sums at the sample points `0..=D`.
    ///
    /// The very first round takes no challenge; every later round takes
    /// exactly one; a finished prover refuses further rounds.
    #[verifier::rlimit(100)]
    pub fn prove_round_and_update_state(&mut self, rho: &Fp, challenge: &Option<Fp>) -> (r:
        Result<Vec<Fp>, SumCheckError>)
        requires
            prover_wf(*old(self)),
            fp_wf(*rho),
            (*challenge) matches Option::Some(c) ==> fp_wf(c),
        ensures
            prover_wf(*final(self)),
            r is Ok <==> old(self).round < old(self).num_vars && (old(self).round == 0 <==> (
            *challenge) is None),
            r is Err ==> *final(self) == *old(self) && r == Result::<Vec<Fp>, SumCheckError>::Err(
                SumCheckError::InvalidInput,
            ),
            r is Ok ==> ({
                let folded = step_terms(*old(self), *challenge);
                let bound2 = step_bound(*old(self), *challenge);
                &&& final(self).num_vars == old(self).num_vars
                &&& final(self).degree == old(self).degree
                &&& final(self).round == old(self).round + 1
                &&& final(self).mask == old(self).mask
                &&& final(self).challenges@ == (match *challenge {
                    Option::Some(c) => old(self).challenges@.push(c),
                    Option::None => old(self).challenges@,
                })
                &&& final(self).bound_sum.v == bound2
                &&& terms_model(final(self).terms@) == folded
                &&& r->Ok_0@.len() == old(self).degree + 1
                &&& fp_seq_wf(r->Ok_0@)
                &&& fp_seq(r->Ok_0@) == round_msg(
                    folded,
                    mask_model(old(self).mask),
                    bound2,
                    old(self).round as nat,
                    old(self).num_vars as nat,
                    old(self).degree as nat,
                    rho.v as int,
                )
            }),
    {
        let nv = self.num_vars;
        if self.round >= nv {
            return Err(SumCheckError::InvalidInput);
        }
        let ghost old_model: Seq<(int, Seq<Seq<int>>)> = terms_model(self.terms@);
        match challenge {
            Option::Some(c) => {
                if self.round == 0 {
                    return Err(SumCheckError::InvalidInput);
                }
                let mut new_terms: Vec<ProductTerm> = Vec::new();
                let mut i: usize = 0;
                while i < self.terms.len()
                    invariant
                        prover_wf(*self),
                        self.round >= 1,
                        fp_wf(*c),
                        old_model == terms_model(self.terms@),
                        0 <= i <= self.terms@.len(),
                        new_terms@.len() == i,
                        forall|t: int|
                            0 <= t < i ==> #[trigger] terms_model(new_terms@)[t] == fold_terms(
                                old_model,
                                c.v as int,
                            )[t],
                        forall|t: int|
                            0 <= t < i ==> {
                                &&& fp_wf((#[trigger] new_terms@[t]).coefficient)
                                &&& new_terms@[t].factors@.len()
                                    == self.terms@[t].factors@.len()
                                &&& forall|j: int|
                                    0 <= j < new_terms@[t].factors@.len() ==> table_wf(
                                        #[trigger] new_terms@[t].factors@[j],
                                    ) && new_terms@[t].factors@[j].num_vars == self.num_vars
                                        - self.challenges@.len() - 1
                            },
                    decreases self.terms@.len() - i,
                {
                    let term = &self.terms[i];
                    let mut nf: Vec<MleTable> = Vec::new();
                    let mut j: usize = 0;
                    while j < term.factors.len()
                        invariant
                            prover_wf(*self),
                            fp_wf(*c),
                            0 <= i < self.terms@.len(),
                            term == &self.terms@[i as int],
                            0 <= j <= term.factors@.len(),
                            nf@.len() == j,
                            forall|k: int|
                                0 <= k < j ==> {
                                    &&& table_wf(#[trigger] nf@[k])
                                    &&& nf@[k].num_vars == self.num_vars
                                        - self.challenges@.len() - 1
                                    &&& table_model(nf@[k]) == fold_seq(
                                        table_model(term.factors@[k]),
                                        c.v as int,
                                    )
                                },
                        decreases term.factors@.len() - j,
                    {
                        nf.push(term.factors[j].fix_first(*c));
                        j = j + 1;
                    }
                    let folded_term = ProductTerm { coefficient: term.coefficient, factors: nf };
                    proof {
                        assert(old_model[i as int] == term_model(self.terms@[i as int]));
                        assert(term_model(folded_term).0 == old_model[i as int].0);
                        assert(term_model(folded_term).1 =~= fold_tables(
                            old_model[i as int].1,
                            c.v as int,
                        ));
                        assert(fold_terms(old_model, c.v as int)[i as int] == (
                            old_model[i as int].0,
                            fold_tables(old_model[i as int].1, c.v as int),
                        ));
                        assert(term_model(folded_term) == fold_terms(
                            old_model,
                            c.v as int,
                        )[i as int]);
                    }
                    let ghost prev: Seq<ProductTerm> = new_terms@;
                    new_terms.push(folded_term);
                    proof {
                        assert forall|t: int| 0 <= t <= i implies #[trigger] terms_model(
                            new_terms@,
                        )[t] == fold_terms(old_model, c.v as int)[t] by {
                            if t < i {
                                assert(new_terms@[t] == prev[t]);
                                assert(terms_model(new_terms@)[t] == term_model(new_terms@[t]));
                                assert(terms_model(prev)[t] == term_model(prev[t]));
                            } else {
                                assert(terms_model(new_terms@)[t] == term_model(folded_term));
                            }
                        }
                    }
                    i = i + 1;
                }
                proof {
                    assert(terms_model(new_terms@) =~= fold_terms(old_model, c.v as int));
                }
                self.terms = new_terms;
                self.challenges.push(*c);
                let g = evaluate_uni(&self.mask.evaluations[self.round - 1], *c);
                self.bound_sum = self.bound_sum.add(g);
            },
            Option::None => {
                if self.round > 0 {
                    return Err(SumCheckError::InvalidInput);
                }
            },
        }
        let ghost folded: Seq<(int, Seq<Seq<int>>)> = step_terms(*old(self), *challenge);
        let ghost bound2: int = step_bound(*old(self), *challenge);
        proof {
            assert(terms_model(self.terms@) == folded);
            assert(self.bound_sum.v == bound2);
        }
        let free = nv - self.round;
        let half = pow2_exec(free - 1);
        proof {
            assert(pow2(free as nat) == 2 * pow2((free - 1) as nat));
        }
        let two = Fp::from_u64(2);
        let hf = two.pow((free - 1) as u64);
        let qf = if free >= 2 {
            two.pow((free - 2) as u64)
        } else {
            Fp::zero()
        };
        let tail = mask_tail(&self.mask, self.round + 1, nv, self.degree);
        let ghost rows: Seq<Seq<int>> = mask_model(self.mask);
        let ghost target: Seq<int> = round_msg(
            folded,
            rows,
            bound2,
            old(self).round as nat,
            nv as nat,
            self.degree as nat,
            rho.v as int,
        );
        let deg = self.degree;
        let mut msg: Vec<Fp> = Vec::new();
        let mut x: usize = 0;
        while x < deg + 1
            invariant
                1 <= nv <= MAX_NUM_VARS,
                1 <= deg < 0xFFF_FFFF,
                mask_wf(self.mask, nv as nat, deg as nat),
                fp_wf(self.bound_sum),
                forall|t: int|
                    0 <= t < self.terms@.len() ==> {
                        &&& fp_wf((#[trigger] self.terms@[t]).coefficient)
                        &&& 1 <= self.terms@[t].factors@.len() <= deg
                        &&& forall|j: int|
                            0 <= j < self.terms@[t].factors@.len() ==> table_wf(
                                #[trigger] self.terms@[t].factors@[j],
                            ) && self.terms@[t].factors@[j].num_vars == free
                    },
                fp_wf(*rho),
                fp_wf(hf),
                fp_wf(qf),
                fp_wf(tail),
                deg == self.degree,
                nv == self.num_vars,
                free == nv - self.round,
                1 <= free,
                self.round == old(self).round,
                self.challenges@.len() == self.round,
                folded == terms_model(self.terms@),
                bound2 == self.bound_sum.v,
                rows == mask_model(self.mask),
                half == pow2((free - 1) as nat),
                hf.v == fpow(2, (free - 1) as nat),
                qf.v == if free >= 2 {
                    fpow(2, (free - 2) as nat)
                } else {
                    0int
                },
                tail.v == mask_tail_sum(rows, (self.round + 1) as nat),
                target == round_msg(
                    folded,
                    rows,
                    bound2,
                    old(self).round as nat,
                    nv as nat,
                    deg as nat,
                    rho.v as int,
                ),
                0 <= x <= deg + 1,
                msg@.len() == x,
                fp_seq_wf(msg@),
                fp_seq(msg@) == target.take(x as int),
            decreases deg + 1 - x,
        {
            let xf = Fp::from_u64(x as u64);
            proof {
                assert(pow2(free as nat) == 2 * pow2((free - 1) as nat));
                assert(forall|t: int|
                    0 <= t < self.terms@.len() ==> (#[trigger] self.terms@[t]).factors@.len()
                        == folded[t].1.len());
            }
            let p = terms_cube(&self.terms, xf, half);
            let gx = self.mask.evaluations[self.round][x];
            let entry = p.add(rho.mul(hf.mul(self.bound_sum.add(gx)).add(qf.mul(tail))));
            msg.push(entry);
            proof {
                reveal(round_msg);
                assert(target[x as int] == msg_entry(
                    folded,
                    x as int,
                    pow2((free - 1) as nat),
                    rho.v as int,
                    rows[self.round as int][x as int],
                    bound2,
                    mask_tail_sum(rows, (self.round + 1) as nat),
                    hf.v as int,
                    qf.v as int,
                ));
                assert(fp_seq(msg@) =~= target.take(x + 1));
            }
            x = x + 1;
        }
        proof {
            reveal(round_msg);
            assert(fp_seq(msg@) =~= target);
        }
        self.round = self.round + 1;
        Ok(msg)
    }
}

/// Sum of `g_i(0) + g_i(1)` over the rows from `from` on.
fn mask_tail(mask: &RandomMaskPolynomial, from: usize, nv: usize, deg: usize) -> (r: Fp)
    requires
        mask_wf(*mask, nv as nat, deg as nat),
        from <= nv,
    ensures
        fp_wf(r),
        r.v == mask_tail_sum(mask_model(*mask), from as nat),
{
    let ghost rows: Seq<Seq<int>> = mask_model(*mask);
    let mut tail = Fp::zero();
    let mut k: usize = nv;
    while k > from
        invariant
            mask_wf(*mask, nv as nat, deg as nat),
            rows == mask_model(*mask),
            from <= k <= nv,
            fp_wf(tail),
            tail.v == mask_tail_sum(rows, k as nat),
        decreases k,
    {
        k = k - 1;
        let row = &mask.evaluations[k];
        tail = row[0].add(row[1]).add(tail);
    }
    tail
}

} // verus!
