//! Error taxonomy of the protocol.
//!
//! Every failure surfaces as one of these typed, recoverable values; no
//! partial result is ever produced alongside one.

use vstd::prelude::*;

verus! {

/// Why a protocol operation was refused.
#[derive(Clone, Copy, Debug, PartialEq, Eq, Structural)]
pub enum SumCheckError {
    /// Mismatched variable counts or degree bounds between the polynomial,
    /// the mask and the declared auxiliary metadata.
    InvalidInput,
    /// The proof carries fewer round messages than the declared variable
    /// count requires.
    ProofIncomplete,
    /// A round-consistency equation of the deferred batch check failed, or
    /// a round message has the wrong number of evaluations.
    SumCheckFailed,
    /// A transcript-derived challenge equals the field's additive or
    /// multiplicative identity, which would collapse the binding of the
    /// round onto an existing hypercube vertex.
    DegenerateChallenge,
}

} // verus!
