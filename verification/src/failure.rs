//! The ways in which a commitment check or a proof of knowledge can fail.

use vstd::prelude::*;

verus! {

/// A failure of the commitment service or of the knowledge-proof service.
#[derive(Clone, Copy, Debug, PartialEq, Eq, Structural)]
pub enum Failure {
    /// An opening did not match its commitment.
    CommitmentMismatch,
    /// No proof could be generated for the secret.
    ProofGeneration,
    /// The journal of a proof does not have the layout of a digest.
    ProofDecode,
    /// The cryptographic check of a proof failed.
    ProofInvalid,
    /// A valid proof speaks of another digest than the expected one.
    DigestMismatch,
}

impl Failure {
    /// Failures that the application is expected to meet and may continue
    /// after: a rejected opening and a digest other than the expected one.
    pub open spec fn recoverable(self) -> bool {
        self == Failure::CommitmentMismatch || self == Failure::DigestMismatch
    }

    /// Failures after which the same request may be made again with another
    /// input: only a failed proof generation.
    pub open spec fn retryable(self) -> bool {
        self == Failure::ProofGeneration
    }

    pub fn is_recoverable(self) -> (answer: bool)
        ensures
            answer == self.recoverable(),
    {
        match self {
            Failure::CommitmentMismatch | Failure::DigestMismatch => true,
            Failure::ProofGeneration | Failure::ProofDecode | Failure::ProofInvalid => false,
        }
    }

    /// Whether the failure ends the invocation it occurred in.
    pub fn is_fatal(self) -> (answer: bool)
        ensures
            answer == !self.recoverable(),
    {
        !self.is_recoverable()
    }

    pub fn is_retryable(self) -> (answer: bool)
        ensures
            answer == self.retryable(),
    {
        match self {
            Failure::ProofGeneration => true,
            _ => false,
        }
    }
}

/// A failed cryptographic check and a digest mismatch are never of one
/// kind: the first is fatal, the second is not.
pub proof fn lemma_invalid_proof_is_no_mismatch()
    ensures
        Failure::ProofInvalid != Failure::DigestMismatch,
        !Failure::ProofInvalid.recoverable(),
        Failure::DigestMismatch.recoverable(),
{
}

} // verus!
