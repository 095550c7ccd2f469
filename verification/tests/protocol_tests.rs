use zk_sumcheck::field::{Fp, MODULUS};
use zk_sumcheck::mask::RandomMaskPolynomial;
use zk_sumcheck::poly::{MleTable, ProductTerm, VPAuxInfo, VirtualPolynomial};
use zk_sumcheck::protocol::{extract_sum, init_transcript, prove, verify, SumCheckProof};
use zk_sumcheck::rng::SeededRng;
use zk_sumcheck::errors::SumCheckError;
use zk_sumcheck::univariate::evaluate_uni;

fn run_sumcheck(nv: usize, lo: usize, hi: usize, num_products: usize, seed: u64) {
    let mut rng = SeededRng::new(seed);
    let mut transcript = init_transcript();

    let (poly, true_sum) = VirtualPolynomial::rand(nv, lo, hi, num_products, &mut rng);
    let (mask, mask_sum) = RandomMaskPolynomial::rand(nv, hi, &mut rng);
    let rho = rng.next_fp();
    assert!(rho != Fp::zero());
    let asserted_sum = true_sum.add(rho.mul(mask_sum));
    let proof = prove(&poly, &mask, &rho, &mut transcript).unwrap();
    let poly_info = poly.aux_info;
    let mut transcript = init_transcript();
    let subclaim = verify(
        asserted_sum,
        &proof,
        &poly_info,
        &mut transcript,
        mask.evaluations.len(),
        mask.evaluations[0].len() - 1,
    )
    .unwrap();
    let res = poly
        .evaluate(&subclaim.point)
        .add(rho.mul(mask.eval(&subclaim.point).unwrap()));
    assert!(res == subclaim.expected_evaluation, "wrong subclaim");
}

#[test]
fn test_trivial_polynomial() {
    let nv = 10;
    let num_multiplicands_range = (2, 6);
    let num_products = 2;

    run_sumcheck(
        nv,
        num_multiplicands_range.0,
        num_multiplicands_range.1,
        num_products,
        7,
    );
}

#[test]
fn round_trip_succeeds_with_random_nonzero_rho() {
    run_sumcheck(10, 2, 6, 2, 99);
}

fn setup(seed: u64) -> (VirtualPolynomial, RandomMaskPolynomial, Fp, Fp, SumCheckProof) {
    let nv = 5;
    let mut rng = SeededRng::new(seed);
    let (poly, true_sum) = VirtualPolynomial::rand(nv, 2, 4, 2, &mut rng);
    let (mask, mask_sum) = RandomMaskPolynomial::rand(nv, 4, &mut rng);
    let rho = rng.next_fp();
    let asserted_sum = true_sum.add(rho.mul(mask_sum));
    let mut transcript = init_transcript();
    let proof = prove(&poly, &mask, &rho, &mut transcript).unwrap();
    (poly, mask, rho, asserted_sum, proof)
}

#[test]
fn proofs_are_deterministic() {
    let (poly, mask, rho, _sum, proof1) = setup(21);
    let mut transcript = init_transcript();
    let proof2 = prove(&poly, &mask, &rho, &mut transcript).unwrap();
    assert_eq!(proof1, proof2);
}

#[test]
fn proof_has_one_message_per_variable() {
    let (poly, _mask, _rho, _sum, proof) = setup(33);
    assert_eq!(proof.messages.len(), poly.aux_info.num_variables);
    assert_eq!(proof.point.len(), poly.aux_info.num_variables);
}

#[test]
fn challenges_are_never_zero_or_one() {
    let (_poly, _mask, _rho, _sum, proof) = setup(45);
    for c in &proof.point {
        assert!(*c != Fp::zero());
        assert!(*c != Fp::one());
    }
}

#[test]
fn tampered_message_entry_is_rejected() {
    let (poly, mask, _rho, asserted_sum, proof) = setup(57);
    let mut tampered = proof.clone();
    let old = tampered.messages[3][1];
    tampered.messages[3][1] = old.add(Fp::one());
    let mut transcript = init_transcript();
    let res = verify(
        asserted_sum,
        &tampered,
        &poly.aux_info,
        &mut transcript,
        mask.evaluations.len(),
        mask.evaluations[0].len() - 1,
    );
    assert_eq!(res, Err(SumCheckError::SumCheckFailed));
}

#[test]
fn wrong_claimed_sum_is_rejected() {
    let (poly, mask, _rho, asserted_sum, proof) = setup(69);
    let mut transcript = init_transcript();
    let res = verify(
        asserted_sum.add(Fp::one()),
        &proof,
        &poly.aux_info,
        &mut transcript,
        mask.evaluations.len(),
        mask.evaluations[0].len() - 1,
    );
    assert_eq!(res, Err(SumCheckError::SumCheckFailed));
}

fn zero_polynomial(nv: usize) -> VirtualPolynomial {
    let table = MleTable { num_vars: nv, evals: vec![Fp::zero(); 1 << nv] };
    VirtualPolynomial {
        aux_info: VPAuxInfo { num_variables: nv, max_degree: 2, num_products: 1 },
        products: vec![ProductTerm { coefficient: Fp::zero(), factors: vec![table] }],
    }
}

#[test]
fn zero_polynomial_accepts_exactly_the_masked_sum() {
    let nv = 6;
    let mut rng = SeededRng::new(81);
    let poly = zero_polynomial(nv);
    let (mask, mask_sum) = RandomMaskPolynomial::rand(nv, 2, &mut rng);
    let rho = rng.next_fp();
    let claimed = rho.mul(mask_sum);

    let mut transcript = init_transcript();
    let proof = prove(&poly, &mask, &rho, &mut transcript).unwrap();

    let mut transcript = init_transcript();
    let ok = verify(claimed, &proof, &poly.aux_info, &mut transcript, nv, 2);
    assert!(ok.is_ok());

    let mut transcript = init_transcript();
    let bad = verify(
        claimed.add(Fp::one()),
        &proof,
        &poly.aux_info,
        &mut transcript,
        nv,
        2,
    );
    assert_eq!(bad, Err(SumCheckError::SumCheckFailed));
}

#[test]
fn extract_sum_recovers_the_claimed_sum() {
    let (_poly, _mask, _rho, asserted_sum, proof) = setup(93);
    assert_eq!(extract_sum(&proof), asserted_sum);
}

#[test]
fn incomplete_proof_is_rejected() {
    let (poly, mask, _rho, asserted_sum, proof) = setup(105);
    let mut truncated = proof.clone();
    truncated.messages.pop();
    let mut transcript = init_transcript();
    let res = verify(
        asserted_sum,
        &truncated,
        &poly.aux_info,
        &mut transcript,
        mask.evaluations.len(),
        mask.evaluations[0].len() - 1,
    );
    assert_eq!(res, Err(SumCheckError::ProofIncomplete));
}

#[test]
fn mismatched_mask_parameters_are_rejected() {
    let (poly, mask, _rho, asserted_sum, proof) = setup(117);
    let mut transcript = init_transcript();
    let res = verify(
        asserted_sum,
        &proof,
        &poly.aux_info,
        &mut transcript,
        mask.evaluations.len() + 1,
        mask.evaluations[0].len() - 1,
    );
    assert_eq!(res, Err(SumCheckError::InvalidInput));
}

#[test]
fn prover_rejects_mask_with_wrong_variable_count() {
    let nv = 5;
    let mut rng = SeededRng::new(129);
    let (poly, _sum) = VirtualPolynomial::rand(nv, 2, 4, 2, &mut rng);
    let (short_mask, _mask_sum) = RandomMaskPolynomial::rand(nv - 1, 4, &mut rng);
    let rho = rng.next_fp();
    let mut transcript = init_transcript();
    let res = prove(&poly, &short_mask, &rho, &mut transcript);
    assert_eq!(res, Err(SumCheckError::InvalidInput));
}

#[test]
fn prover_rejects_mask_with_too_small_degree() {
    let nv = 5;
    let mut rng = SeededRng::new(141);
    let (poly, _sum) = VirtualPolynomial::rand(nv, 3, 4, 2, &mut rng);
    assert!(poly.aux_info.max_degree == 3);
    let (low_mask, _mask_sum) = RandomMaskPolynomial::rand(nv, 2, &mut rng);
    let rho = rng.next_fp();
    let mut transcript = init_transcript();
    let res = prove(&poly, &low_mask, &rho, &mut transcript);
    assert_eq!(res, Err(SumCheckError::InvalidInput));
}

#[test]
fn mask_eval_rejects_wrong_dimension() {
    let mut rng = SeededRng::new(153);
    let (mask, _sum) = RandomMaskPolynomial::rand(4, 3, &mut rng);
    let point = vec![Fp::one(); 3];
    assert_eq!(mask.eval(&point), Err(SumCheckError::InvalidInput));
}

#[test]
fn field_arithmetic_exact_values() {
    let a = Fp::from_u64(MODULUS - 1);
    assert_eq!(a.add(Fp::one()), Fp::zero());
    assert_eq!(Fp::from_u64(3).mul(Fp::from_u64(5)), Fp::from_u64(15));
    assert_eq!(Fp::from_u64(7).sub(Fp::from_u64(9)), Fp::from_u64(MODULUS - 2));
    let two_inv = Fp::from_u64(2).inv();
    assert_eq!(two_inv.mul(Fp::from_u64(2)), Fp::one());
    assert_eq!(Fp::from_u64(3).pow(4), Fp::from_u64(81));
}

#[test]
fn interpolation_exact_value() {
    // The degree-1 polynomial with p(0) = 3 and p(1) = 5 takes the value 7
    // at 2, and the quadratic with p(0) = 0, p(1) = 1, p(2) = 4 is x^2.
    let line = vec![Fp::from_u64(3), Fp::from_u64(5)];
    assert_eq!(evaluate_uni(&line, Fp::from_u64(2)), Fp::from_u64(7));
    let square = vec![Fp::from_u64(0), Fp::from_u64(1), Fp::from_u64(4)];
    assert_eq!(evaluate_uni(&square, Fp::from_u64(5)), Fp::from_u64(25));
}

#[test]
fn transcript_is_a_function_of_its_history() {
    let mut t1 = init_transcript();
    let mut t2 = init_transcript();
    t1.append_u64(5, 42);
    t2.append_u64(5, 42);
    let c1 = t1.get_and_append_challenge(6);
    let c2 = t2.get_and_append_challenge(6);
    assert_eq!(c1, c2);

    let mut t3 = init_transcript();
    t3.append_u64(5, 43);
    let c3 = t3.get_and_append_challenge(6);
    assert!(c1 != c3);
}
