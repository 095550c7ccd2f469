//! Fiat–Shamir transcript.
//!
//! An append-only, domain-separated log of labelled field-sized words. The
//! running digest is a polynomial rolling hash over everything appended so
//! far, so a derived challenge is a pure function of the whole prior append
//! history: identical histories always yield identical challenges, which is
//! what removes the interaction from the protocol.

use vstd::prelude::*;
use crate::field::{Fp, MODULUS, fp_wf, fadd, fmul};

verus! {

/// Mixing multiplier of the rolling hash.
pub const HASH_MUL: u64 = 0x0F83_21C9_D9A3_2B57;

/// Label under which the protocol's auxiliary metadata is appended.
pub const LABEL_AUX_INFO: u64 = 1;

/// Label under which each round message is appended.
pub const LABEL_PROVER_MSG: u64 = 2;

/// Label under which each round challenge is derived and appended.
pub const LABEL_CHALLENGE: u64 = 3;

/// Digest after absorbing one word: `state * HASH_MUL + word + 1` in the
/// field. The `+ 1` keeps absorbing a zero word distinct from absorbing
/// nothing.
#[verifier::opaque]
pub open spec fn absorb(s: int, w: int) -> int {
    fadd(fadd(fmul(s, HASH_MUL as int), w), 1)
}

/// Digest after absorbing a labelled word.
pub open spec fn absorb_labeled(s: int, label: int, w: int) -> int {
    absorb(absorb(s, label), w)
}

/// Digest after absorbing a labelled sequence of words: first the label,
/// then the length, then each word in order.
pub open spec fn absorb_words(s: int, ws: Seq<int>) -> int
    decreases ws.len(),
{
    if ws.len() == 0 {
        s
    } else {
        absorb(absorb_words(s, ws.drop_last()), ws.last())
    }
}

/// The challenge derived from a digest, and the digest after recording it.
pub open spec fn challenge_of(s: int, label: int) -> int {
    absorb(s, label)
}

/// Digest after absorbing one round message under its label.
pub open spec fn msg_absorbed(t: int, msg: Seq<int>) -> int {
    absorb_words(
        absorb_labeled(t, LABEL_PROVER_MSG as int, (msg.len() as u64 % MODULUS) as int),
        msg,
    )
}

/// The challenge a round derives after its message was absorbed.
pub open spec fn round_challenge(t: int, msg: Seq<int>) -> int {
    challenge_of(msg_absorbed(t, msg), LABEL_CHALLENGE as int)
}

/// Digest after one whole round: message absorbed, challenge derived and
/// recorded.
pub open spec fn round_tstate(t: int, msg: Seq<int>) -> int {
    absorb(round_challenge(t, msg), round_challenge(t, msg))
}

/// Deterministic append-and-challenge log.
pub struct Transcript {
    pub state: Fp,
}

/// A transcript is well formed when its digest is a reduced scalar.
pub open spec fn transcript_wf(t: Transcript) -> bool {
    fp_wf(t.state)
}

impl Transcript {
    /// Fresh transcript with the given domain-separation seed.
    pub fn new(seed: u64) -> (r: Transcript)
        ensures
            transcript_wf(r),
            r.state.v == seed % MODULUS,
    {
        Transcript { state: Fp::from_u64(seed) }
    }

    /// Absorb one labelled field element.
    pub fn append_field(&mut self, label: u64, w: Fp)
        requires
            transcript_wf(*old(self)),
            label < MODULUS,
            fp_wf(w),
        ensures
            transcript_wf(*final(self)),
            final(self).state.v == absorb_labeled(old(self).state.v as int, label as int, w.v as int),
    {
        self.absorb_word(Fp::from_u64(label));
        self.absorb_word(w);
    }

    /// Absorb one labelled machine word.
    pub fn append_u64(&mut self, label: u64, w: u64)
        requires
            transcript_wf(*old(self)),
            label < MODULUS,
        ensures
            transcript_wf(*final(self)),
            final(self).state.v == absorb_labeled(
                old(self).state.v as int,
                label as int,
                (w % MODULUS) as int,
            ),
    {
        self.absorb_word(Fp::from_u64(label));
        self.absorb_word(Fp::from_u64(w));
    }

    /// Absorb a labelled list of field elements: label, length, entries.
    pub fn append_fields(&mut self, label: u64, ws: &Vec<Fp>)
        requires
            transcript_wf(*old(self)),
            label < MODULUS,
            forall|i: int| 0 <= i < ws@.len() ==> fp_wf(#[trigger] ws@[i]),
        ensures
            transcript_wf(*final(self)),
            final(self).state.v == absorb_words(
                absorb_labeled(
                    old(self).state.v as int,
                    label as int,
                    (ws@.len() as u64 % MODULUS) as int,
                ),
                ws@.map_values(|x: Fp| x.v as int),
            ),
    {
        self.absorb_word(Fp::from_u64(label));
        self.absorb_word(Fp::from_u64(ws.len() as u64));
        let ghost base: int = self.state.v as int;
        let ghost model: Seq<int> = ws@.map_values(|x: Fp| x.v as int);
        let mut i: usize = 0;
        while i < ws.len()
            invariant
                transcript_wf(*self),
                0 <= i <= ws@.len(),
                forall|j: int| 0 <= j < ws@.len() ==> fp_wf(#[trigger] ws@[j]),
                model == ws@.map_values(|x: Fp| x.v as int),
                self.state.v == absorb_words(base, model.take(i as int)),
            decreases ws@.len() - i,
        {
            proof {
                assert(model.take(i + 1).drop_last() =~= model.take(i as int));
                assert(model.take(i + 1).last() == model[i as int]);
            }
            self.absorb_word(ws[i]);
            i = i + 1;
        }
        proof {
            assert(model.take(ws@.len() as int) =~= model);
        }
    }

    /// Derive a fresh challenge under a label and record it in the digest.
    pub fn get_and_append_challenge(&mut self, label: u64) -> (r: Fp)
        requires
            transcript_wf(*old(self)),
            label < MODULUS,
        ensures
            transcript_wf(*final(self)),
            fp_wf(r),
            r.v == challenge_of(old(self).state.v as int, label as int),
            final(self).state.v == absorb(
                challenge_of(old(self).state.v as int, label as int),
                r.v as int,
            ),
    {
        self.absorb_word(Fp::from_u64(label));
        let c = self.state;
        self.absorb_word(c);
        c
    }

    /// Absorb one reduced word into the digest.
    fn absorb_word(&mut self, w: Fp)
        requires
            transcript_wf(*old(self)),
            fp_wf(w),
        ensures
            transcript_wf(*final(self)),
            final(self).state.v == absorb(old(self).state.v as int, w.v as int),
    {
        proof {
            reveal(absorb);
        }
        let m = Fp::from_u64(HASH_MUL);
        self.state = self.state.mul(m).add(w).add(Fp::one());
    }
}

} // verus!
