//! Protocol driver.
//!
//! `prove` binds the declared metadata into the transcript, runs one prover
//! round per variable — appending each message before deriving the next
//! challenge, and refusing any challenge equal to 0 or 1 — and returns the
//! ordered proof. `verify` replays the same transcript derivation over the
//! received proof and hands the accumulated record to the deferred batch
//! check. Both ends are pinned to one spec-level run of the protocol, so a
//! proof and its verification are pure functions of the inputs and the
//! transcript seed.

use vstd::prelude::*;
use crate::field::{Fp, MODULUS, fp_wf, fadd};
use crate::univariate::{fp_seq, fp_seq_wf, uni_eval};
use crate::poly::{VPAuxInfo, VirtualPolynomial, vp_model, vp_wf};
use crate::mask::{RandomMaskPolynomial, mask_model, mask_wf};
use crate::prover::{
    ZkSumCheckProverState, prover_wf, step_terms, step_bound, round_msg, fold_terms,
};
use crate::verifier_state::{
    ZkSumCheckVerifierState, ZkSumCheckSubClaim, msgs_model, replay_challenges, replay_tstate,
    msgs_len_ok, rounds_consistent,
};
use crate::transcript::{
    Transcript, transcript_wf, absorb_labeled, round_challenge, round_tstate, LABEL_AUX_INFO,
    LABEL_PROVER_MSG, LABEL_CHALLENGE,
};
use crate::errors::SumCheckError;

verus! {

/// Domain-separation seed of a fresh sum-check transcript.
pub const TRANSCRIPT_SEED: u64 = 0x5A4B_5343_5452_4C59;

/// An ordered sum-check proof: one message per variable, and the challenge
/// vector the rounds settled on.
#[derive(Clone, Debug, PartialEq, Eq)]
pub struct SumCheckProof {
    /// The challenge of each round, in round order.
    pub point: Vec<Fp>,
    /// The `D + 1` evaluations of each round's message, in round order.
    pub messages: Vec<Vec<Fp>>,
}

/// Digest after the declared metadata is bound into the transcript.
pub open spec fn aux_absorbed(t: int, aux: VPAuxInfo) -> int {
    absorb_labeled(
        absorb_labeled(
            absorb_labeled(
                t,
                LABEL_AUX_INFO as int,
                (aux.num_variables as u64 % MODULUS) as int,
            ),
            LABEL_AUX_INFO as int,
            (aux.max_degree as u64 % MODULUS) as int,
        ),
        LABEL_AUX_INFO as int,
        (aux.num_products as u64 % MODULUS) as int,
    )
}

/// The whole round loop, as one spec-level recursion: whether every
/// challenge was admissible, the messages and challenges in round order,
/// and the final transcript digest.
#[verifier::opaque]
pub open spec fn run_rounds(
    terms: Seq<(int, Seq<Seq<int>>)>,
    rows: Seq<Seq<int>>,
    bound: int,
    round: nat,
    nv: nat,
    deg: nat,
    rho: int,
    t: int,
) -> (bool, Seq<Seq<int>>, Seq<int>, int)
    decreases nv - round,
{
    if round >= nv {
        (true, Seq::<Seq<int>>::empty(), Seq::<int>::empty(), t)
    } else {
        let msg = round_msg(terms, rows, bound, round, nv, deg, rho);
        let c = round_challenge(t, msg);
        let t2 = round_tstate(t, msg);
        if c == 0 || c == 1 {
            (false, Seq::<Seq<int>>::empty(), Seq::<int>::empty(), t2)
        } else {
            let rest = run_rounds(
                fold_terms(terms, c),
                rows,
                fadd(bound, uni_eval(rows[round as int], c)),
                round + 1,
                nv,
                deg,
                rho,
                t2,
            );
            (rest.0, seq![msg] + rest.1, seq![c] + rest.2, rest.3)
        }
    }
}

/// One unfolding of the round loop: a finished run returns its digest, a
/// degenerate challenge stops the run, and any other challenge folds the
/// terms and accounts the mask row before the remaining rounds.
pub proof fn lemma_run_rounds_unfold(
    terms: Seq<(int, Seq<Seq<int>>)>,
    rows: Seq<Seq<int>>,
    bound: int,
    round: nat,
    nv: nat,
    deg: nat,
    rho: int,
    t: int,
)
    ensures
        round >= nv ==> run_rounds(terms, rows, bound, round, nv, deg, rho, t) == (
            true,
            Seq::<Seq<int>>::empty(),
            Seq::<int>::empty(),
            t,
        ),
        round < nv ==> ({
            let msg = round_msg(terms, rows, bound, round, nv, deg, rho);
            let c = round_challenge(t, msg);
            let t2 = round_tstate(t, msg);
            &&& (c == 0 || c == 1) ==> run_rounds(terms, rows, bound, round, nv, deg, rho, t)
                == (false, Seq::<Seq<int>>::empty(), Seq::<int>::empty(), t2)
            &&& !(c == 0 || c == 1) ==> run_rounds(terms, rows, bound, round, nv, deg, rho, t)
                == ({
                let rest = run_rounds(
                    fold_terms(terms, c),
                    rows,
                    fadd(bound, uni_eval(rows[round as int], c)),
                    round + 1,
                    nv,
                    deg,
                    rho,
                    t2,
                );
                (rest.0, seq![msg] + rest.1, seq![c] + rest.2, rest.3)
            })
        }),
{
    reveal(run_rounds);
}

/// The spec-level proof of the whole protocol on given inputs: the run of
/// `run_rounds` from the freshly bound metadata.
pub open spec fn prove_run(
    poly: VirtualPolynomial,
    mask_poly: RandomMaskPolynomial,
    rho: Fp,
    t: int,
    deg: nat,
) -> (bool, Seq<Seq<int>>, Seq<int>, int) {
    run_rounds(
        vp_model(poly),
        mask_model(mask_poly),
        0,
        0,
        poly.aux_info.num_variables as nat,
        deg,
        rho.v as int,
        aux_absorbed(t, poly.aux_info),
    )
}

/// The inputs `prove` accepts: at least one variable, and a mask whose
/// rows all hold `d + 1` values for one admissible `d` at least the
/// polynomial's largest term degree.
pub open spec fn prove_inputs_ok(poly: VirtualPolynomial, mask_poly: RandomMaskPolynomial) -> bool {
    poly.aux_info.num_variables >= 1 && exists|d: nat|
        1 <= d < 0xFFF_FFFF && d >= poly.aux_info.max_degree && mask_wf(
            mask_poly,
            poly.aux_info.num_variables as nat,
            d,
        )
}

/// Mapping a pushed message list models the pushed model list.
proof fn lemma_msgs_model_push(v: Seq<Vec<Fp>>, x: Vec<Fp>)
    ensures
        msgs_model(v.push(x)) == msgs_model(v).push(fp_seq(x@)),
{
    assert(msgs_model(v.push(x)) =~= msgs_model(v).push(fp_seq(x@)));
}

/// Mapping a pushed scalar list models the pushed representative list.
proof fn lemma_fp_seq_push(v: Seq<Fp>, x: Fp)
    ensures
        fp_seq(v.push(x)) == fp_seq(v).push(x.v as int),
{
    assert(fp_seq(v.push(x)) =~= fp_seq(v).push(x.v as int));
}

/// Shifting one round's message and challenge from the remaining run into
/// the accumulated prefixes.
proof fn lemma_step_compose(
    full: (bool, Seq<Seq<int>>, Seq<int>, int),
    ms: Seq<Seq<int>>,
    cs: Seq<int>,
    rest: (bool, Seq<Seq<int>>, Seq<int>, int),
    rest2: (bool, Seq<Seq<int>>, Seq<int>, int),
    m: Seq<int>,
    cv: int,
)
    requires
        full == (rest.0, ms + rest.1, cs + rest.2, rest.3),
        rest == (rest2.0, seq![m] + rest2.1, seq![cv] + rest2.2, rest2.3),
    ensures
        full == (rest2.0, ms.push(m) + rest2.1, cs.push(cv) + rest2.2, rest2.3),
{
    assert(ms + (seq![m] + rest2.1) =~= ms.push(m) + rest2.1);
    assert(cs + (seq![cv] + rest2.2) =~= cs.push(cv) + rest2.2);
}

/// Fresh transcript under the protocol's domain-separation seed.
pub fn init_transcript() -> (r: Transcript)
    ensures
        transcript_wf(r),
        r.state.v == TRANSCRIPT_SEED % MODULUS,
{
    Transcript::new(TRANSCRIPT_SEED)
}

/// The combined claimed sum recoverable from a proof's first message:
/// its value at 0 plus its value at 1.
pub fn extract_sum(proof: &SumCheckProof) -> (r: Fp)
    requires
        proof.messages@.len() >= 1,
        proof.messages@[0]@.len() >= 2,
        fp_wf(proof.messages@[0]@[0]),
        fp_wf(proof.messages@[0]@[1]),
    ensures
        fp_wf(r),
        r.v == fadd(proof.messages@[0]@[0].v as int, proof.messages@[0]@[1].v as int),
{
    proof.messages[0][0].add(proof.messages[0][1])
}

/// Bind the declared metadata into the transcript.
fn append_aux_info(transcript: &mut Transcript, aux: &VPAuxInfo)
    requires
        transcript_wf(*old(transcript)),
    ensures
        transcript_wf(*final(transcript)),
        final(transcript).state.v == aux_absorbed(old(transcript).state.v as int, *aux),
{
    transcript.append_u64(LABEL_AUX_INFO, aux.num_variables as u64);
    transcript.append_u64(LABEL_AUX_INFO, aux.max_degree as u64);
    transcript.append_u64(LABEL_AUX_INFO, aux.num_products as u64);
}

/// Prove that the virtual polynomial's hypercube sum, blinded by `rho`
/// times the mask, equals the sum the caller will claim.
///
/// The metadata is bound into the transcript first, so a proof cannot be
/// replayed against different problem parameters. A transcript-derived
/// challenge equal to 0 or 1 is refused with `DegenerateChallenge`: such a
/// value would collapse the round's binding onto a hypercube vertex.
#[verifier::rlimit(100)]
pub fn prove(
    poly: &VirtualPolynomial,
    mask_poly: &RandomMaskPolynomial,
    rho: &Fp,
    transcript: &mut Transcript,
) -> (r: Result<SumCheckProof, SumCheckError>)
    requires
        vp_wf(*poly),
        forall|i: int|
            0 <= i < mask_poly.evaluations@.len() ==> fp_seq_wf(
                (#[trigger] mask_poly.evaluations@[i])@,
            ),
        fp_wf(*rho),
        transcript_wf(*old(transcript)),
    ensures
        transcript_wf(*final(transcript)),
        r == Result::<SumCheckProof, SumCheckError>::Err(SumCheckError::InvalidInput) <==> !prove_inputs_ok(
            *poly,
            *mask_poly,
        ),
        !prove_inputs_ok(*poly, *mask_poly) ==> final(transcript).state.v == aux_absorbed(
            old(transcript).state.v as int,
            poly.aux_info,
        ),
        prove_inputs_ok(*poly, *mask_poly) ==> ({
            let deg = (mask_poly.evaluations@[0]@.len() - 1) as nat;
            let run = prove_run(*poly, *mask_poly, *rho, old(transcript).state.v as int, deg);
            &&& final(transcript).state.v == run.3
            &&& (r is Ok <==> run.0)
            &&& !run.0 ==> r == Result::<SumCheckProof, SumCheckError>::Err(
                SumCheckError::DegenerateChallenge,
            )
            &&& run.0 ==> ({
                let pf = r->Ok_0;
                &&& pf.messages@.len() == poly.aux_info.num_variables
                &&& pf.point@.len() == poly.aux_info.num_variables
                &&& fp_seq_wf(pf.point@)
                &&& msgs_model(pf.messages@) == run.1
                &&& fp_seq(pf.point@) == run.2
                &&& forall|i: int|
                    0 <= i < pf.point@.len() ==> (#[trigger] pf.point@[i]).v != 0
                        && pf.point@[i].v != 1
                &&& forall|i: int|
                    0 <= i < pf.messages@.len() ==> fp_seq_wf((#[trigger] pf.messages@[i])@)
                        && pf.messages@[i]@.len() == mask_poly.evaluations@[0]@.len()
            })
        }),
{
    append_aux_info(transcript, &poly.aux_info);
    let ghost t0: int = transcript.state.v as int;
    let mut prover_state = match ZkSumCheckProverState::prover_init(poly, mask_poly) {
        Ok(s) => s,
        Err(e) => {
            return Err(e);
        },
    };
    let nv = prover_state.num_vars;
    let deg = prover_state.degree;
    let ghost rows: Seq<Seq<int>> = mask_model(prover_state.mask);
    let ghost full: (bool, Seq<Seq<int>>, Seq<int>, int) = run_rounds(
        vp_model(*poly),
        rows,
        0,
        0,
        nv as nat,
        deg as nat,
        rho.v as int,
        t0,
    );
    proof {
        assert(rows == mask_model(*mask_poly));
        assert(full == prove_run(
            *poly,
            *mask_poly,
            *rho,
            old(transcript).state.v as int,
            deg as nat,
        ));
    }
    let mut challenge: Option<Fp> = None;
    let mut msgs: Vec<Vec<Fp>> = Vec::new();
    let ghost mut done_chals: Seq<int> = Seq::empty();
    let mut k: usize = 0;
    while k < nv
        invariant
            prove_inputs_ok(*poly, *mask_poly),
            deg + 1 == mask_poly.evaluations@[0]@.len(),
            full == prove_run(*poly, *mask_poly, *rho, old(transcript).state.v as int, deg as nat),
            fp_wf(*rho),
            transcript_wf(*transcript),
            prover_wf(prover_state),
            prover_state.num_vars == nv,
            prover_state.degree == deg,
            prover_state.round == k,
            mask_model(prover_state.mask) == rows,
            1 <= nv,
            0 <= k <= nv,
            k == 0 <==> challenge is None,
            challenge matches Option::Some(cc) ==> fp_wf(cc),
            msgs@.len() == k,
            forall|i: int|
                0 <= i < msgs@.len() ==> fp_seq_wf((#[trigger] msgs@[i])@) && msgs@[i]@.len()
                    == deg + 1,
            done_chals.len() == k,
            forall|i: int|
                0 <= i < done_chals.len() ==> #[trigger] done_chals[i] != 0 && done_chals[i]
                    != 1,
            done_chals == fp_seq(prover_state.challenges@) + (match challenge {
                Option::Some(cc) => seq![cc.v as int],
                Option::None => Seq::<int>::empty(),
            }),
            full == ({
                let rest = run_rounds(
                    step_terms(prover_state, challenge),
                    rows,
                    step_bound(prover_state, challenge),
                    k as nat,
                    nv as nat,
                    deg as nat,
                    rho.v as int,
                    transcript.state.v as int,
                );
                (rest.0, msgs_model(msgs@) + rest.1, done_chals + rest.2, rest.3)
            }),
        decreases nv - k,
    {
        let ghost pre_state = prover_state;
        let ghost pre_t: int = transcript.state.v as int;
        let ghost rest = run_rounds(
            step_terms(prover_state, challenge),
            rows,
            step_bound(prover_state, challenge),
            k as nat,
            nv as nat,
            deg as nat,
            rho.v as int,
            pre_t,
        );
        let msg = match prover_state.prove_round_and_update_state(rho, &challenge) {
            Ok(m) => m,
            Err(e) => {
                proof {
                    assert(false);
                }
                return Err(e);
            },
        };
        transcript.append_fields(LABEL_PROVER_MSG, &msg);
        let c = transcript.get_and_append_challenge(LABEL_CHALLENGE);
        proof {
            assert(fp_seq(msg@) == round_msg(
                step_terms(pre_state, challenge),
                rows,
                step_bound(pre_state, challenge),
                k as nat,
                nv as nat,
                deg as nat,
                rho.v as int,
            ));
            assert(c.v == round_challenge(pre_t, fp_seq(msg@)));
            assert(transcript.state.v == round_tstate(pre_t, fp_seq(msg@)));
        }
        if c.v == 0 || c.v == 1 {
            proof {
                lemma_run_rounds_unfold(
                    step_terms(pre_state, challenge),
                    rows,
                    step_bound(pre_state, challenge),
                    k as nat,
                    nv as nat,
                    deg as nat,
                    rho.v as int,
                    pre_t,
                );
            }
            return Err(SumCheckError::DegenerateChallenge);
        }
        let ghost prev_msgs = msgs@;
        msgs.push(msg);
        proof {
            let cv = c.v as int;
            let m = fp_seq(msg@);
            let rest2 = run_rounds(
                fold_terms(step_terms(pre_state, challenge), cv),
                rows,
                fadd(
                    step_bound(pre_state, challenge),
                    uni_eval(rows[k as int], cv),
                ),
                (k + 1) as nat,
                nv as nat,
                deg as nat,
                rho.v as int,
                transcript.state.v as int,
            );
            lemma_run_rounds_unfold(
                step_terms(pre_state, challenge),
                rows,
                step_bound(pre_state, challenge),
                k as nat,
                nv as nat,
                deg as nat,
                rho.v as int,
                pre_t,
            );
            assert(rest == (rest2.0, seq![m] + rest2.1, seq![cv] + rest2.2, rest2.3));
            assert(step_terms(prover_state, Some(c)) == fold_terms(
                step_terms(pre_state, challenge),
                cv,
            ));
            assert(step_bound(prover_state, Some(c)) == fadd(
                step_bound(pre_state, challenge),
                uni_eval(rows[k as int], cv),
            ));
            match challenge {
                Option::Some(pc) => {
                    lemma_fp_seq_push(pre_state.challenges@, pc);
                    assert(fp_seq(pre_state.challenges@).push(pc.v as int) =~= fp_seq(
                        pre_state.challenges@,
                    ) + seq![pc.v as int]);
                },
                Option::None => {
                    assert(done_chals =~= fp_seq(prover_state.challenges@));
                },
            }
            assert(done_chals =~= fp_seq(prover_state.challenges@));
            lemma_msgs_model_push(prev_msgs, msg);
            lemma_step_compose(
                full,
                msgs_model(prev_msgs),
                done_chals,
                rest,
                rest2,
                m,
                cv,
            );
            lemma_fp_seq_push(prover_state.challenges@, c);
            assert(done_chals.push(cv) =~= fp_seq(prover_state.challenges@) + seq![cv]);
            done_chals = done_chals.push(cv);
        }
        challenge = Some(c);
        k = k + 1;
    }
    let last = match challenge {
        Some(p) => p,
        None => {
            proof {
                assert(false);
            }
            return Err(SumCheckError::InvalidInput);
        },
    };
    let ghost pre_chals: Seq<Fp> = prover_state.challenges@;
    prover_state.challenges.push(last);
    proof {
        let rest = run_rounds(
            step_terms(prover_state, challenge),
            rows,
            step_bound(prover_state, challenge),
            k as nat,
            nv as nat,
            deg as nat,
            rho.v as int,
            transcript.state.v as int,
        );
        lemma_run_rounds_unfold(
            step_terms(prover_state, challenge),
            rows,
            step_bound(prover_state, challenge),
            k as nat,
            nv as nat,
            deg as nat,
            rho.v as int,
            transcript.state.v as int,
        );
        assert(rest == (
            true,
            Seq::<Seq<int>>::empty(),
            Seq::<int>::empty(),
            transcript.state.v as int,
        ));
        assert(msgs_model(msgs@) + Seq::<Seq<int>>::empty() =~= msgs_model(msgs@));
        assert(done_chals + Seq::<int>::empty() =~= done_chals);
        lemma_fp_seq_push(pre_chals, last);
        assert(fp_seq(pre_chals).push(last.v as int) =~= fp_seq(pre_chals) + seq![
            last.v as int,
        ]);
        assert(fp_seq(prover_state.challenges@) =~= done_chals);
        let pts = prover_state.challenges@;
        assert forall|i: int| 0 <= i < pts.len() implies fp_wf(#[trigger] pts[i]) && pts[i].v
            != 0 && pts[i].v != 1 by {
            assert(fp_seq(pts)[i] == pts[i].v as int);
            if i < pre_chals.len() {
                assert(pts[i] == pre_chals[i]);
            } else {
                assert(pts[i] == last);
            }
        }
    }
    Ok(SumCheckProof { point: prover_state.challenges, messages: msgs })
}

/// Determinism law: two successful proofs over identical inputs and
/// identical starting transcript digests carry identical round messages and
/// identical challenge points — a proof is a pure function of the
/// polynomial, the mask, the blinding scalar and the transcript seed.
pub proof fn lemma_prove_deterministic(
    poly: VirtualPolynomial,
    mask_poly: RandomMaskPolynomial,
    rho: Fp,
    t: int,
    deg: nat,
    pf1: SumCheckProof,
    pf2: SumCheckProof,
)
    requires
        msgs_model(pf1.messages@) == prove_run(poly, mask_poly, rho, t, deg).1,
        fp_seq(pf1.point@) == prove_run(poly, mask_poly, rho, t, deg).2,
        msgs_model(pf2.messages@) == prove_run(poly, mask_poly, rho, t, deg).1,
        fp_seq(pf2.point@) == prove_run(poly, mask_poly, rho, t, deg).2,
        fp_seq_wf(pf1.point@),
        fp_seq_wf(pf2.point@),
    ensures
        msgs_model(pf1.messages@) == msgs_model(pf2.messages@),
        fp_seq(pf1.point@) == fp_seq(pf2.point@),
        pf1.point@ == pf2.point@,
{
    assert(fp_seq(pf1.point@).len() == pf1.point@.len());
    assert(fp_seq(pf2.point@).len() == pf2.point@.len());
    assert forall|i: int| 0 <= i < pf1.point@.len() implies #[trigger] pf1.point@[i]
        == pf2.point@[i] by {
        assert(fp_seq(pf1.point@)[i] == pf1.point@[i].v as int);
        assert(fp_seq(pf2.point@)[i] == pf2.point@[i].v as int);
    }
    assert(pf1.point@ =~= pf2.point@);
}

/// Verify a claimed sum against a proof: rebind the metadata, replay every
/// message and challenge, and run the deferred batch check, producing the
/// sub-claim on success.
#[verifier::rlimit(100)]
pub fn verify(
    claimed_sum: Fp,
    proof: &SumCheckProof,
    aux_info: &VPAuxInfo,
    transcript: &mut Transcript,
    mask_poly_nv: usize,
    mask_poly_degree: usize,
) -> (r: Result<ZkSumCheckSubClaim, SumCheckError>)
    requires
        fp_wf(claimed_sum),
        transcript_wf(*old(transcript)),
        forall|i: int|
            0 <= i < proof.messages@.len() ==> fp_seq_wf((#[trigger] proof.messages@[i])@)
                && proof.messages@[i]@.len() < 0x1000_0000,
    ensures
        transcript_wf(*final(transcript)),
        ({
            let nv = aux_info.num_variables;
            let t0 = aux_absorbed(old(transcript).state.v as int, *aux_info);
            let mm = msgs_model(proof.messages@).take(nv as int);
            let chals = replay_challenges(t0, mm);
            let incomplete = proof.messages@.len() < nv;
            let params_ok = mask_poly_nv == nv && nv >= 1 && 1 <= mask_poly_degree < 0xFFF_FFFF
                && mask_poly_degree >= aux_info.max_degree;
            let checks_ok = msgs_len_ok(mm, mask_poly_degree as nat) && rounds_consistent(
                mm,
                chals,
                claimed_sum.v as int,
            );
            &&& (r == Result::<ZkSumCheckSubClaim, SumCheckError>::Err(
                SumCheckError::ProofIncomplete,
            ) <==> incomplete)
            &&& incomplete ==> final(transcript).state.v == t0
            &&& !incomplete ==> final(transcript).state.v == replay_tstate(t0, mm)
            &&& !incomplete ==> (r == Result::<ZkSumCheckSubClaim, SumCheckError>::Err(
                SumCheckError::InvalidInput,
            ) <==> !params_ok)
            &&& !incomplete && params_ok ==> (r == Result::<
                ZkSumCheckSubClaim,
                SumCheckError,
            >::Err(SumCheckError::SumCheckFailed) <==> !checks_ok)
            &&& (r is Ok <==> !incomplete && params_ok && checks_ok)
            &&& r is Ok ==> ({
                let sc = r->Ok_0;
                &&& sc.point@.len() == nv
                &&& fp_seq_wf(sc.point@)
                &&& fp_seq(sc.point@) == chals
                &&& fp_wf(sc.expected_evaluation)
                &&& sc.expected_evaluation.v == uni_eval(mm[nv - 1], chals[nv - 1])
            })
        }),
{
    append_aux_info(transcript, aux_info);
    let ghost t0: int = transcript.state.v as int;
    let nv = aux_info.num_variables;
    if proof.messages.len() < nv {
        return Err(SumCheckError::ProofIncomplete);
    }
    let ghost mm: Seq<Seq<int>> = msgs_model(proof.messages@).take(nv as int);
    let mut vs = ZkSumCheckVerifierState::verifier_init(aux_info);
    proof {
        assert(mm.skip(0) =~= mm);
        assert(fp_seq(vs.challenges@) =~= Seq::<int>::empty());
        assert(Seq::<int>::empty() + replay_challenges(t0, mm) =~= replay_challenges(t0, mm));
    }
    let mut i: usize = 0;
    while i < nv
        invariant
            fp_wf(claimed_sum),
            transcript_wf(*transcript),
            forall|j: int|
                0 <= j < proof.messages@.len() ==> fp_seq_wf((#[trigger] proof.messages@[j])@)
                    && proof.messages@[j]@.len() < 0x1000_0000,
            proof.messages@.len() >= nv,
            mm == msgs_model(proof.messages@).take(nv as int),
            crate::verifier_state::verifier_wf(vs),
            vs.num_vars == nv,
            vs.max_degree == aux_info.max_degree,
            vs.round == i,
            0 <= i <= nv,
            msgs_model(vs.polynomials_received@) == mm.take(i as int),
            replay_challenges(t0, mm) == fp_seq(vs.challenges@) + replay_challenges(
                transcript.state.v as int,
                mm.skip(i as int),
            ),
            replay_tstate(t0, mm) == replay_tstate(
                transcript.state.v as int,
                mm.skip(i as int),
            ),
        decreases nv - i,
    {
        let ghost pre_t: int = transcript.state.v as int;
        let ghost pre_chals = vs.challenges@;
        let ghost pre_recv = vs.polynomials_received@;
        proof {
            crate::verifier_state::lemma_replay_unfold(pre_t, mm.skip(i as int));
            assert(mm.skip(i as int).first() == mm[i as int]);
            assert(mm[i as int] == fp_seq(proof.messages@[i as int]@));
            assert(mm.skip(i as int).skip(1) =~= mm.skip(i + 1));
        }
        let c = match vs.verify_round_and_update_state(&proof.messages[i], transcript) {
            Ok(c) => c,
            Err(e) => {
                proof {
                    assert(false);
                }
                return Err(e);
            },
        };
        proof {
            assert(msgs_model(vs.polynomials_received@) =~= mm.take(i + 1));
            assert(fp_seq(vs.challenges@) =~= fp_seq(pre_chals) + seq![c.v as int]);
            assert(fp_seq(pre_chals) + (seq![c.v as int] + replay_challenges(
                transcript.state.v as int,
                mm.skip(i + 1),
            )) =~= fp_seq(vs.challenges@) + replay_challenges(
                transcript.state.v as int,
                mm.skip(i + 1),
            ));
        }
        i = i + 1;
    }
    proof {
        crate::verifier_state::lemma_replay_unfold(transcript.state.v as int, mm.skip(nv as int));
        assert(mm.skip(nv as int) =~= Seq::<Seq<int>>::empty());
        assert(fp_seq(vs.challenges@) + Seq::<int>::empty() =~= fp_seq(vs.challenges@));
        assert(msgs_model(vs.polynomials_received@) =~= mm);
    }
    vs.check_and_generate_subclaim(&claimed_sum, mask_poly_nv, mask_poly_degree)
}

} // verus!
