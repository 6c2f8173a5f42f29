//! Token-weighted governance voting with confidential ballots.
//!
//! The crate holds the election state machine and weighted tally, ElGamal
//! ballot encryption over the Ristretto group, the Fiat-Shamir Sigma proof
//! that a ballot is well formed, and the Groth16 proof gate.
pub mod encoding;
pub mod errors;
pub mod identity;
pub mod scalar;
pub mod group;
pub mod transcript;
pub mod elgamal;
pub mod sigma;
pub mod field;
pub mod snark;
pub mod executor;
pub mod election;
pub mod voting;
