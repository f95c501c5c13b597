//! Hash commitments to 64-bit values and the verification flow for proofs
//! of knowledge of a SHA-256 preimage.

pub mod commitment;
pub mod failure;
pub mod hash;
pub mod hexfmt;
pub mod journal;
pub mod prover;
pub mod verdict;
pub mod verification;

pub use commitment::{create_commitment, verify_commitment};
