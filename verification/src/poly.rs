//! Multilinear tables and the virtual polynomial.
//!
//! A multilinear function over `n` variables is tabulated by its `2^n`
//! hypercube values; entry `b`'s bit `k` is the value of variable `k`.
//! The virtual polynomial is a sum of coefficient-weighted products of such
//! tables, all sharing one variable count. Evaluation anywhere fixes one
//! variable after another by linear interpolation between the two halves of
//! the table, which is also exactly the prover's per-round folding step.

use vstd::prelude::*;
use crate::field::{Fp, fp_wf, fadd, fsub, fmul};
use crate::univariate::{fp_seq, fp_seq_wf};
use crate::rng::SeededRng;

verus! {

/// `2^n`.
pub open spec fn pow2(n: nat) -> nat
    decreases n,
{
    if n == 0 {
        1
    } else {
        2 * pow2((n - 1) as nat)
    }
}

/// Largest variable count a table may declare.
pub const MAX_NUM_VARS: usize = 25;

/// A multilinear function tabulated over its Boolean hypercube.
pub struct MleTable {
    pub num_vars: usize,
    pub evals: Vec<Fp>,
}

/// Model of a table: its reduced hypercube values in index order.
pub open spec fn table_model(t: MleTable) -> Seq<int> {
    fp_seq(t.evals@)
}

/// A table is well formed when it is full-sized with reduced entries.
pub open spec fn table_wf(t: MleTable) -> bool {
    &&& t.num_vars <= MAX_NUM_VARS
    &&& t.evals@.len() == pow2(t.num_vars as nat)
    &&& fp_seq_wf(t.evals@)
}

/// Table after fixing the leading variable to `r`: entry `b` becomes
/// `t[2b] + r * (t[2b+1] - t[2b])`.
pub open spec fn fold_seq(t: Seq<int>, r: int) -> Seq<int> {
    Seq::new((t.len() / 2) as nat, |b: int| fadd(t[2 * b], fmul(r, fsub(t[2 * b + 1], t[2 * b]))))
}

/// Multilinear evaluation at an arbitrary point, by fixing the leading
/// variable to the leading coordinate until none is left.
pub open spec fn mle_eval(t: Seq<int>, nv: nat, point: Seq<int>) -> int
    decreases nv,
{
    if nv == 0 {
        if t.len() >= 1 {
            t[0]
        } else {
            0
        }
    } else {
        mle_eval(fold_seq(t, point[0]), (nv - 1) as nat, point.skip(1))
    }
}

/// Copy a list of scalars.
pub fn clone_fp_vec(v: &Vec<Fp>) -> (r: Vec<Fp>)
    ensures
        r@ == v@,
{
    let mut out: Vec<Fp> = Vec::new();
    let mut i: usize = 0;
    while i < v.len()
        invariant
            0 <= i <= v@.len(),
            out@ == v@.take(i as int),
        decreases v@.len() - i,
    {
        out.push(v[i]);
        i = i + 1;
    }
    proof {
        assert(v@.take(v@.len() as int) =~= v@);
    }
    out
}

impl MleTable {
    /// Copy the table.
    pub fn duplicate(&self) -> (r: MleTable)
        ensures
            r.num_vars == self.num_vars,
            r.evals@ == self.evals@,
    {
        MleTable { num_vars: self.num_vars, evals: clone_fp_vec(&self.evals) }
    }

    /// Fix the leading variable to `r`, halving the table.
    pub fn fix_first(&self, r: Fp) -> (out: MleTable)
        requires
            table_wf(*self),
            self.num_vars >= 1,
            fp_wf(r),
        ensures
            table_wf(out),
            out.num_vars == self.num_vars - 1,
            table_model(out) == fold_seq(table_model(*self), r.v as int),
    {
        let ghost model: Seq<int> = table_model(*self);
        let len = self.evals.len();
        let half = len / 2;
        proof {
            assert(pow2(self.num_vars as nat) == 2 * pow2((self.num_vars - 1) as nat));
        }
        let mut out: Vec<Fp> = Vec::new();
        let mut b: usize = 0;
        while b < half
            invariant
                table_wf(*self),
                fp_wf(r),
                model == table_model(*self),
                len == self.evals@.len(),
                half == len / 2,
                2 * half == len,
                0 <= b <= half,
                out@.len() == b,
                fp_seq_wf(out@),
                fp_seq(out@) == fold_seq(model, r.v as int).take(b as int),
            decreases half - b,
        {
            let lo = self.evals[2 * b];
            let hi = self.evals[2 * b + 1];
            let e = lo.add(r.mul(hi.sub(lo)));
            out.push(e);
            proof {
                assert(fp_seq(out@) =~= fold_seq(model, r.v as int).take(b + 1));
            }
            b = b + 1;
        }
        proof {
            assert(fold_seq(model, r.v as int).take(half as int) =~= fold_seq(
                model,
                r.v as int,
            ));
        }
        MleTable { num_vars: self.num_vars - 1, evals: out }
    }

    /// Evaluate the multilinear function at an arbitrary point.
    pub fn evaluate(&self, point: &Vec<Fp>) -> (r: Fp)
        requires
            table_wf(*self),
            point@.len() == self.num_vars,
            fp_seq_wf(point@),
        ensures
            fp_wf(r),
            r.v == mle_eval(table_model(*self), self.num_vars as nat, fp_seq(point@)),
    {
        let ghost full_model: Seq<int> = table_model(*self);
        let ghost full_point: Seq<int> = fp_seq(point@);
        let mut cur = self.duplicate();
        proof {
            assert(full_point.skip(0) =~= full_point);
            assert(table_model(cur) =~= full_model);
        }
        let mut k: usize = 0;
        while k < point.len()
            invariant
                fp_seq_wf(point@),
                full_point == fp_seq(point@),
                point@.len() == self.num_vars,
                table_wf(cur),
                0 <= k <= point@.len(),
                cur.num_vars == self.num_vars - k,
                mle_eval(table_model(cur), cur.num_vars as nat, full_point.skip(k as int))
                    == mle_eval(full_model, self.num_vars as nat, full_point),
            decreases point@.len() - k,
        {
            proof {
                assert(full_point.skip(k as int)[0] == full_point[k as int]);
                assert(full_point.skip(k as int).skip(1) =~= full_point.skip(k + 1));
            }
            cur = cur.fix_first(point[k]);
            k = k + 1;
        }
        proof {
            assert(pow2(cur.num_vars as nat) == 1);
        }
        cur.evals[0]
    }
}

/// Declared metadata of a virtual polynomial: variable count, largest
/// per-term degree, and number of product terms.
#[derive(Clone, Copy, Debug, PartialEq, Eq, Structural)]
pub struct VPAuxInfo {
    pub num_variables: usize,
    pub max_degree: usize,
    pub num_products: usize,
}

/// One weighted product of multilinear factors.
pub struct ProductTerm {
    pub coefficient: Fp,
    pub factors: Vec<MleTable>,
}

/// Model of one term: its coefficient and its factor tables.
pub open spec fn term_model(t: ProductTerm) -> (int, Seq<Seq<int>>) {
    (t.coefficient.v as int, t.factors@.map_values(|m: MleTable| table_model(m)))
}

/// A term is well formed over `nv` variables and degree bound `d`.
pub open spec fn term_wf(t: ProductTerm, nv: nat, d: nat) -> bool {
    &&& fp_wf(t.coefficient)
    &&& 1 <= t.factors@.len() <= d
    &&& forall|i: int|
        0 <= i < t.factors@.len() ==> table_wf(#[trigger] t.factors@[i]) && t.factors@[i].num_vars
            == nv
}

/// A sum of weighted products of multilinear functions.
pub struct VirtualPolynomial {
    pub aux_info: VPAuxInfo,
    pub products: Vec<ProductTerm>,
}

/// Model of the whole polynomial: one `(coefficient, tables)` pair per term.
pub open spec fn vp_model(p: VirtualPolynomial) -> Seq<(int, Seq<Seq<int>>)> {
    p.products@.map_values(|t: ProductTerm| term_model(t))
}

/// A virtual polynomial is well formed when every term matches its declared
/// metadata.
pub open spec fn vp_wf(p: VirtualPolynomial) -> bool {
    &&& p.aux_info.num_variables <= MAX_NUM_VARS
    &&& p.aux_info.max_degree >= 1
    &&& p.products@.len() == p.aux_info.num_products
    &&& forall|i: int|
        0 <= i < p.products@.len() ==> term_wf(
            #[trigger] p.products@[i],
            p.aux_info.num_variables as nat,
            p.aux_info.max_degree as nat,
        )
}

/// Sum over the first `k` terms of coefficient-weighted products of factor
/// evaluations at `point`.
pub open spec fn vp_eval_partial(
    terms: Seq<(int, Seq<Seq<int>>)>,
    nv: nat,
    point: Seq<int>,
    k: nat,
) -> int
    decreases k,
{
    if k == 0 {
        0
    } else {
        fadd(
            vp_eval_partial(terms, nv, point, (k - 1) as nat),
            fmul(terms[k - 1].0, factors_eval(terms[k - 1].1, nv, point, terms[k - 1].1.len())),
        )
    }
}

/// Product of the first `k` factor tables evaluated at `point`.
pub open spec fn factors_eval(tables: Seq<Seq<int>>, nv: nat, point: Seq<int>, k: nat) -> int
    decreases k,
{
    if k == 0 {
        1int % (crate::field::MODULUS as int)
    } else {
        fmul(factors_eval(tables, nv, point, (k - 1) as nat), mle_eval(tables[k - 1], nv, point))
    }
}

/// Value of the virtual polynomial at `point`.
pub open spec fn vp_eval(p: VirtualPolynomial, point: Seq<int>) -> int {
    vp_eval_partial(vp_model(p), p.aux_info.num_variables as nat, point, vp_model(p).len())
}

/// Product over the first `k` tables of entry `b`.
pub open spec fn tables_entry_prod(ts: Seq<Seq<int>>, k: nat, b: int) -> int
    decreases k,
{
    if k == 0 {
        1int % (crate::field::MODULUS as int)
    } else {
        fmul(tables_entry_prod(ts, (k - 1) as nat, b), ts[k - 1][b])
    }
}

/// One term's sum over the first `h` hypercube points.
pub open spec fn term_cube_total(c: int, ts: Seq<Seq<int>>, h: nat) -> int
    decreases h,
{
    if h == 0 {
        0
    } else {
        fadd(
            term_cube_total(c, ts, (h - 1) as nat),
            fmul(c, tables_entry_prod(ts, ts.len(), h - 1)),
        )
    }
}

/// Hypercube sum of the first `k` terms.
pub open spec fn vp_cube_sum(terms: Seq<(int, Seq<Seq<int>>)>, k: nat, h: nat) -> int
    decreases k,
{
    if k == 0 {
        0
    } else {
        fadd(
            vp_cube_sum(terms, (k - 1) as nat, h),
            term_cube_total(terms[k - 1].0, terms[k - 1].1, h),
        )
    }
}

impl VirtualPolynomial {
    /// Evaluate the polynomial at an arbitrary point.
    pub fn evaluate(&self, point: &Vec<Fp>) -> (r: Fp)
        requires
            vp_wf(*self),
            point@.len() == self.aux_info.num_variables,
            fp_seq_wf(point@),
        ensures
            fp_wf(r),
            r.v == vp_eval(*self, fp_seq(point@)),
    {
        let ghost terms: Seq<(int, Seq<Seq<int>>)> = vp_model(*self);
        let ghost nv: nat = self.aux_info.num_variables as nat;
        let ghost pt: Seq<int> = fp_seq(point@);
        let mut acc = Fp::zero();
        let mut i: usize = 0;
        while i < self.products.len()
            invariant
                vp_wf(*self),
                point@.len() == self.aux_info.num_variables,
                fp_seq_wf(point@),
                terms == vp_model(*self),
                nv == self.aux_info.num_variables as nat,
                pt == fp_seq(point@),
                fp_wf(acc),
                0 <= i <= self.products@.len(),
                acc.v == vp_eval_partial(terms, nv, pt, i as nat),
            decreases self.products@.len() - i,
        {
            let term = &self.products[i];
            let mut prod = Fp::one();
            let mut j: usize = 0;
            while j < term.factors.len()
                invariant
                    vp_wf(*self),
                    point@.len() == self.aux_info.num_variables,
                    fp_seq_wf(point@),
                    terms == vp_model(*self),
                    nv == self.aux_info.num_variables as nat,
                    pt == fp_seq(point@),
                    0 <= i < self.products@.len(),
                    term == &self.products@[i as int],
                    fp_wf(prod),
                    0 <= j <= term.factors@.len(),
                    prod.v == factors_eval(terms[i as int].1, nv, pt, j as nat),
                decreases term.factors@.len() - j,
            {
                let v = term.factors[j].evaluate(point);
                prod = prod.mul(v);
                j = j + 1;
            }
            acc = acc.add(term.coefficient.mul(prod));
            i = i + 1;
        }
        acc
    }

    /// Sample a virtual polynomial over `num_vars` variables with
    /// `num_products` terms, each holding between `lo` and `hi - 1`
    /// multilinear factors, together with its sum over the Boolean
    /// hypercube.
    pub fn rand(
        num_vars: usize,
        lo: usize,
        hi: usize,
        num_products: usize,
        rng: &mut SeededRng,
    ) -> (r: (VirtualPolynomial, Fp))
        requires
            fp_wf(old(rng).state),
            1 <= num_vars <= MAX_NUM_VARS,
            1 <= lo < hi,
            hi <= 64,
            1 <= num_products,
        ensures
            fp_wf(final(rng).state),
            vp_wf(r.0),
            r.0.aux_info.num_variables == num_vars,
            r.0.aux_info.num_products == num_products,
            r.0.aux_info.max_degree < hi,
            fp_wf(r.1),
            r.1.v == vp_cube_sum(
                vp_model(r.0),
                num_products as nat,
                pow2(num_vars as nat),
            ),
    {
        let size = crate::prover::pow2_exec(num_vars);
        let mut products: Vec<ProductTerm> = Vec::new();
        let mut total = Fp::zero();
        let mut max_degree: usize = 1;
        let mut t: usize = 0;
        while t < num_products
            invariant
                fp_wf(rng.state),
                1 <= num_vars <= MAX_NUM_VARS,
                1 <= lo < hi,
                hi <= 64,
                size == pow2(num_vars as nat),
                0 <= t <= num_products,
                products@.len() == t,
                1 <= max_degree < hi,
                forall|i: int|
                    0 <= i < products@.len() ==> term_wf(
                        #[trigger] products@[i],
                        num_vars as nat,
                        max_degree as nat,
                    ),
                fp_wf(total),
                total.v == vp_cube_sum(
                    products@.map_values(|q: ProductTerm| term_model(q)),
                    t as nat,
                    pow2(num_vars as nat),
                ),
            decreases num_products - t,
        {
            let draw = rng.next_fp();
            let width = (draw.v % ((hi - lo) as u64)) as usize;
            let nf = lo + width;
            let coefficient = rng.next_fp();
            let mut factors: Vec<MleTable> = Vec::new();
            let mut j: usize = 0;
            while j < nf
                invariant
                    fp_wf(rng.state),
                    1 <= num_vars <= MAX_NUM_VARS,
                    size == pow2(num_vars as nat),
                    0 <= j <= nf,
                    factors@.len() == j,
                    forall|i: int|
                        0 <= i < factors@.len() ==> table_wf(#[trigger] factors@[i])
                            && factors@[i].num_vars == num_vars,
                decreases nf - j,
            {
                let mut evals: Vec<Fp> = Vec::new();
                let mut b: usize = 0;
                while b < size
                    invariant
                        fp_wf(rng.state),
                        size == pow2(num_vars as nat),
                        0 <= b <= size,
                        evals@.len() == b,
                        fp_seq_wf(evals@),
                    decreases size - b,
                {
                    evals.push(rng.next_fp());
                    b = b + 1;
                }
                factors.push(MleTable { num_vars, evals });
                j = j + 1;
            }
            let term = ProductTerm { coefficient, factors };
            let ghost tm: (int, Seq<Seq<int>>) = term_model(term);
            let mut term_sum = Fp::zero();
            let mut b: usize = 0;
            while b < size
                invariant
                    size == pow2(num_vars as nat),
                    fp_wf(term.coefficient),
                    term.factors@.len() >= 1,
                    forall|i: int|
                        0 <= i < term.factors@.len() ==> table_wf(#[trigger] term.factors@[i])
                            && term.factors@[i].num_vars == num_vars,
                    tm == term_model(term),
                    0 <= b <= size,
                    fp_wf(term_sum),
                    term_sum.v == term_cube_total(tm.0, tm.1, b as nat),
                decreases size - b,
            {
                let mut prod = Fp::one();
                let mut j2: usize = 0;
                while j2 < term.factors.len()
                    invariant
                        size == pow2(num_vars as nat),
                        forall|i: int|
                            0 <= i < term.factors@.len() ==> table_wf(
                                #[trigger] term.factors@[i],
                            ) && term.factors@[i].num_vars == num_vars,
                        tm == term_model(term),
                        0 <= b < size,
                        fp_wf(prod),
                        0 <= j2 <= term.factors@.len(),
                        prod.v == tables_entry_prod(tm.1, j2 as nat, b as int),
                    decreases term.factors@.len() - j2,
                {
                    prod = prod.mul(term.factors[j2].evals[b]);
                    j2 = j2 + 1;
                }
                term_sum = term_sum.add(term.coefficient.mul(prod));
                b = b + 1;
            }
            total = total.add(term_sum);
            let ghost prev = products@;
            products.push(term);
            if nf > max_degree {
                max_degree = nf;
            }
            proof {
                let prev_map = prev.map_values(|q: ProductTerm| term_model(q));
                let new_map = products@.map_values(|q: ProductTerm| term_model(q));
                assert forall|i: int| 0 <= i <= t implies #[trigger] new_map[i] == if i < t {
                    prev_map[i]
                } else {
                    tm
                } by {
                    assert(products@[i] == if i < t {
                        prev[i]
                    } else {
                        term
                    });
                }
                lemma_vp_cube_sum_prefix(prev_map, new_map, t as nat, pow2(num_vars as nat));
            }
            t = t + 1;
        }
        let aux_info = VPAuxInfo { num_variables: num_vars, max_degree, num_products };
        let poly = VirtualPolynomial { aux_info, products };
        proof {
            assert(vp_model(poly) =~= poly.products@.map_values(|q: ProductTerm| term_model(q)));
        }
        (poly, total)
    }
}

/// A term list's partial hypercube sums only read the terms they cover.
pub proof fn lemma_vp_cube_sum_prefix(
    a: Seq<(int, Seq<Seq<int>>)>,
    b: Seq<(int, Seq<Seq<int>>)>,
    k: nat,
    h: nat,
)
    requires
        forall|i: int| 0 <= i < k ==> a[i] == b[i],
    ensures
        vp_cube_sum(a, k, h) == vp_cube_sum(b, k, h),
    decreases k,
{
    if k > 0 {
        lemma_vp_cube_sum_prefix(a, b, (k - 1) as nat, h);
    }
}

} // verus!
