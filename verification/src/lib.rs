//! Zero-knowledge sum-check argument.
//!
//! A prover convinces a verifier that the sum of a multivariate polynomial's
//! evaluations over the Boolean hypercube equals a claimed scalar, one round
//! per variable, with a random masking polynomial blinding each round's
//! partial-sum message and a deterministic transcript supplying the
//! verifier's challenges.

pub mod field;
pub mod rng;
pub mod transcript;
pub mod univariate;
pub mod poly;
pub mod errors;
pub mod mask;
pub mod prover;
pub mod verifier_state;
pub mod protocol;
