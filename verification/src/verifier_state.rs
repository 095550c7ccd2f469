//! Verifier state machine.
//!
//! The verifier mirrors the prover's rounds. Each round only replays the
//! received message into the transcript and derives the next challenge; all
//! arithmetic checks are deferred to one final batch pass, which walks the
//! recorded messages once, checks the round-to-round consistency equations,
//! and emits the sub-claim the outer system must discharge.

use vstd::prelude::*;
use crate::field::{Fp, fp_wf, fadd};
use crate::univariate::{fp_seq, fp_seq_wf, uni_eval, evaluate_uni};
use crate::poly::{VPAuxInfo, clone_fp_vec};
use crate::transcript::{
    Transcript, transcript_wf, round_challenge, round_tstate, LABEL_PROVER_MSG, LABEL_CHALLENGE,
};
use crate::errors::SumCheckError;

verus! {

/// A sub-claim: the evaluation point the rounds settled on, and the value
/// the combined polynomial must take there. It is valid only if the caller
/// independently shows `poly(point) + rho * mask(point)` equals the
/// expected evaluation.
#[derive(Clone, Debug, PartialEq, Eq)]
pub struct ZkSumCheckSubClaim {
    /// The multi-dimensional point that the combined polynomial is to be
    /// opened at.
    pub point: Vec<Fp>,
    /// The expected evaluation at that point.
    pub expected_evaluation: Fp,
}

/// Model of a list of round messages.
pub open spec fn msgs_model(v: Seq<Vec<Fp>>) -> Seq<Seq<int>> {
    v.map_values(|m: Vec<Fp>| fp_seq(m@))
}

/// Challenges derived by replaying `msgs` against a transcript at digest
/// `t`, one round after another.
#[verifier::opaque]
pub open spec fn replay_challenges(t: int, msgs: Seq<Seq<int>>) -> Seq<int>
    decreases msgs.len(),
{
    if msgs.len() == 0 {
        Seq::empty()
    } else {
        seq![round_challenge(t, msgs.first())] + replay_challenges(
            round_tstate(t, msgs.first()),
            msgs.skip(1),
        )
    }
}

/// Digest after replaying `msgs` against a transcript at digest `t`.
#[verifier::opaque]
pub open spec fn replay_tstate(t: int, msgs: Seq<Seq<int>>) -> int
    decreases msgs.len(),
{
    if msgs.len() == 0 {
        t
    } else {
        replay_tstate(round_tstate(t, msgs.first()), msgs.skip(1))
    }
}

/// One unfolding of the replay: the first message is absorbed, its
/// challenge recorded, and the rest replayed from the advanced digest.
pub proof fn lemma_replay_unfold(t: int, msgs: Seq<Seq<int>>)
    ensures
        msgs.len() == 0 ==> replay_challenges(t, msgs) == Seq::<int>::empty() && replay_tstate(
            t,
            msgs,
        ) == t,
        msgs.len() > 0 ==> replay_challenges(t, msgs) == seq![
            round_challenge(t, msgs.first()),
        ] + replay_challenges(round_tstate(t, msgs.first()), msgs.skip(1)) && replay_tstate(
            t,
            msgs,
        ) == replay_tstate(round_tstate(t, msgs.first()), msgs.skip(1)),
{
    reveal(replay_challenges);
    reveal(replay_tstate);
}

/// Every message lists exactly `d + 1` evaluations.
pub open spec fn msgs_len_ok(msgs: Seq<Seq<int>>, d: nat) -> bool {
    forall|i: int| 0 <= i < msgs.len() ==> (#[trigger] msgs[i]).len() == d + 1
}

/// The deferred consistency equations: round 0 re-derives the claimed sum,
/// and each later round re-derives the previous message's value at the
/// previous challenge.
pub open spec fn rounds_consistent(msgs: Seq<Seq<int>>, chals: Seq<int>, claimed: int) -> bool {
    forall|i: int|
        0 <= i < msgs.len() ==> fadd(#[trigger] msgs[i][0], msgs[i][1]) == if i == 0 {
            claimed
        } else {
            uni_eval(msgs[i - 1], chals[i - 1])
        }
}

/// Verifier state: the declared metadata snapshot and the accumulated
/// messages and challenges, consumed once by the final batch check.
pub struct ZkSumCheckVerifierState {
    pub num_vars: usize,
    pub max_degree: usize,
    pub num_products: usize,
    pub round: usize,
    pub polynomials_received: Vec<Vec<Fp>>,
    pub challenges: Vec<Fp>,
}

/// Well-formedness of a verifier state between rounds.
pub open spec fn verifier_wf(s: ZkSumCheckVerifierState) -> bool {
    &&& s.round <= s.num_vars
    &&& s.polynomials_received@.len() == s.round
    &&& s.challenges@.len() == s.round
    &&& fp_seq_wf(s.challenges@)
    &&& forall|i: int|
        0 <= i < s.polynomials_received@.len() ==> fp_seq_wf(
            (#[trigger] s.polynomials_received@[i])@,
        ) && s.polynomials_received@[i]@.len() < 0x1000_0000
}

impl ZkSumCheckVerifierState {
    /// Start a verifying session for the declared metadata.
    pub fn verifier_init(index_info: &VPAuxInfo) -> (r: ZkSumCheckVerifierState)
        ensures
            verifier_wf(r),
            r.num_vars == index_info.num_variables,
            r.max_degree == index_info.max_degree,
            r.num_products == index_info.num_products,
            r.round == 0,
            r.polynomials_received@.len() == 0,
            r.challenges@.len() == 0,
    {
        ZkSumCheckVerifierState {
            num_vars: index_info.num_variables,
            max_degree: index_info.max_degree,
            num_products: index_info.num_products,
            round: 0,
            polynomials_received: Vec::new(),
            challenges: Vec::new(),
        }
    }

    /// Replay one received message into the transcript, derive and record
    /// the round's challenge; all arithmetic checks are deferred.
    pub fn verify_round_and_update_state(
        &mut self,
        prover_msg: &Vec<Fp>,
        transcript: &mut Transcript,
    ) -> (r: Result<Fp, SumCheckError>)
        requires
            verifier_wf(*old(self)),
            transcript_wf(*old(transcript)),
            fp_seq_wf(prover_msg@),
            prover_msg@.len() < 0x1000_0000,
        ensures
            verifier_wf(*final(self)),
            transcript_wf(*final(transcript)),
            r is Ok <==> old(self).round < old(self).num_vars,
            r is Err ==> *final(self) == *old(self) && *final(transcript) == *old(transcript) && r
                == Result::<Fp, SumCheckError>::Err(SumCheckError::InvalidInput),
            r is Ok ==> {
                &&& final(self).num_vars == old(self).num_vars
                &&& final(self).max_degree == old(self).max_degree
                &&& final(self).num_products == old(self).num_products
                &&& final(self).round == old(self).round + 1
                &&& final(self).polynomials_received@.len() == old(self).round + 1
                &&& final(self).polynomials_received@.drop_last() == old(
                    self,
                ).polynomials_received@
                &&& final(self).polynomials_received@.last()@ == prover_msg@
                &&& final(self).challenges@ == old(self).challenges@.push(r->Ok_0)
                &&& r->Ok_0.v == round_challenge(old(transcript).state.v as int, fp_seq(
                    prover_msg@,
                ))
                &&& final(transcript).state.v == round_tstate(
                    old(transcript).state.v as int,
                    fp_seq(prover_msg@),
                )
            },
    {
        if self.round >= self.num_vars {
            return Err(SumCheckError::InvalidInput);
        }
        transcript.append_fields(LABEL_PROVER_MSG, prover_msg);
        let c = transcript.get_and_append_challenge(LABEL_CHALLENGE);
        self.polynomials_received.push(clone_fp_vec(prover_msg));
        self.challenges.push(c);
        self.round = self.round + 1;
        Ok(c)
    }

    /// The deferred batch check. Validates the declared mask parameters
    /// against the metadata snapshot, checks every round-consistency
    /// equation, and produces the sub-claim.
    pub fn check_and_generate_subclaim(
        &self,
        asserted_sum: &Fp,
        mask_poly_nv: usize,
        mask_poly_degree: usize,
    ) -> (r: Result<ZkSumCheckSubClaim, SumCheckError>)
        requires
            verifier_wf(*self),
            fp_wf(*asserted_sum),
        ensures
            ({
                let msgs = msgs_model(self.polynomials_received@);
                let chals = fp_seq(self.challenges@);
                let complete = self.round == self.num_vars;
                let params_ok = mask_poly_nv == self.num_vars && self.num_vars >= 1
                    && 1 <= mask_poly_degree < 0xFFF_FFFF && mask_poly_degree
                    >= self.max_degree;
                let checks_ok = msgs_len_ok(msgs, mask_poly_degree as nat) && rounds_consistent(
                    msgs,
                    chals,
                    asserted_sum.v as int,
                );
                &&& (r == Result::<ZkSumCheckSubClaim, SumCheckError>::Err(
                    SumCheckError::ProofIncomplete,
                ) <==> !complete)
                &&& complete ==> (r == Result::<ZkSumCheckSubClaim, SumCheckError>::Err(
                    SumCheckError::InvalidInput,
                ) <==> !params_ok)
                &&& complete && params_ok ==> (r == Result::<
                    ZkSumCheckSubClaim,
                    SumCheckError,
                >::Err(SumCheckError::SumCheckFailed) <==> !checks_ok)
                &&& (r is Ok <==> complete && params_ok && checks_ok)
                &&& r is Ok ==> {
                    let sc = r->Ok_0;
                    &&& sc.point@.len() == self.num_vars
                    &&& fp_seq_wf(sc.point@)
                    &&& fp_seq(sc.point@) == chals
                    &&& fp_wf(sc.expected_evaluation)
                    &&& sc.expected_evaluation.v == uni_eval(
                        msgs[self.num_vars - 1],
                        chals[self.num_vars - 1],
                    )
                }
            }),
    {
        if self.round != self.num_vars {
            return Err(SumCheckError::ProofIncomplete);
        }
        if mask_poly_nv != self.num_vars || self.num_vars == 0 || mask_poly_degree == 0
            || mask_poly_degree >= 0xFFF_FFFF || mask_poly_degree < self.max_degree {
            return Err(SumCheckError::InvalidInput);
        }
        let ghost msgs: Seq<Seq<int>> = msgs_model(self.polynomials_received@);
        let ghost chals: Seq<int> = fp_seq(self.challenges@);
        let n = self.num_vars;
        let mut i: usize = 0;
        while i < n
            invariant
                verifier_wf(*self),
                self.round == self.num_vars,
                n == self.num_vars,
                msgs == msgs_model(self.polynomials_received@),
                1 <= mask_poly_degree < 0xFFF_FFFF,
                mask_poly_nv == n && n >= 1,
                mask_poly_degree >= self.max_degree,
                0 <= i <= n,
                forall|k: int|
                    0 <= k < i ==> (#[trigger] msgs[k]).len() == mask_poly_degree + 1,
            decreases n - i,
        {
            proof {
                assert(msgs[i as int] == fp_seq(self.polynomials_received@[i as int]@));
            }
            if self.polynomials_received[i].len() != mask_poly_degree + 1 {
                return Err(SumCheckError::SumCheckFailed);
            }
            i = i + 1;
        }
        let mut j: usize = 0;
        while j < n
            invariant
                verifier_wf(*self),
                fp_wf(*asserted_sum),
                self.round == self.num_vars,
                n == self.num_vars,
                msgs == msgs_model(self.polynomials_received@),
                chals == fp_seq(self.challenges@),
                msgs_len_ok(msgs, mask_poly_degree as nat),
                1 <= mask_poly_degree < 0xFFF_FFFF,
                mask_poly_nv == n && n >= 1,
                mask_poly_degree >= self.max_degree,
                0 <= j <= n,
                forall|k: int|
                    0 <= k < j ==> fadd(#[trigger] msgs[k][0], msgs[k][1]) == if k == 0 {
                        asserted_sum.v as int
                    } else {
                        uni_eval(msgs[k - 1], chals[k - 1])
                    },
            decreases n - j,
        {
            proof {
                assert(msgs[j as int] == fp_seq(self.polynomials_received@[j as int]@));
                if j > 0 {
                    assert(msgs[j - 1] == fp_seq(self.polynomials_received@[j - 1]@));
                    assert(chals[j - 1] == self.challenges@[j - 1].v as int);
                }
            }
            let row = &self.polynomials_received[j];
            let lhs = row[0].add(row[1]);
            let rhs = if j == 0 {
                *asserted_sum
            } else {
                evaluate_uni(&self.polynomials_received[j - 1], self.challenges[j - 1])
            };
            if lhs != rhs {
                proof {
                    assert(msgs[j as int][0] == row@[0].v as int);
                    assert(msgs[j as int][1] == row@[1].v as int);
                    assert(fadd(msgs[j as int][0], msgs[j as int][1]) != (if j == 0 {
                        asserted_sum.v as int
                    } else {
                        uni_eval(msgs[j - 1], chals[j - 1])
                    }));
                }
                return Err(SumCheckError::SumCheckFailed);
            }
            proof {
                assert(msgs[j as int][0] == row@[0].v as int);
                assert(msgs[j as int][1] == row@[1].v as int);
            }
            j = j + 1;
        }
        let expected = evaluate_uni(
            &self.polynomials_received[n - 1],
            self.challenges[n - 1],
        );
        Ok(ZkSumCheckSubClaim { point: clone_fp_vec(&self.challenges), expected_evaluation: expected })
    }
}

} // verus!
