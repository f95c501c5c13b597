//! The verifier's side of a proof of knowledge: three checks, each made and
//! reported on its own.

use crate::failure::Failure;
use crate::hash::digests_equal;
use crate::journal::{decode_journal, journal_digest, journal_of, lemma_journal_round_trip, lemma_journal_unique};
use vstd::prelude::*;

verus! {

/// What the three checks of a proof found.
#[derive(Clone, Copy, Debug, PartialEq, Eq)]
pub struct VerificationReport {
    /// The digest read from the journal; `None` where the journal does not
    /// have the layout of a digest.
    pub decoded: Option<[u8; 32]>,
    /// Whether the proving engine accepted the proof.
    pub proof_valid: bool,
    /// Whether the digest read is the expected one; `None` where there was
    /// no digest to compare or none to compare it with.
    pub digest_matches: Option<bool>,
}

/// The mathematical content of a report.
pub struct ReportView {
    pub decoded: Option<Seq<u8>>,
    pub proof_valid: bool,
    pub digest_matches: Option<bool>,
}

impl View for VerificationReport {
    type V = ReportView;

    open spec fn view(&self) -> ReportView {
        ReportView {
            decoded: match self.decoded {
                Some(digest) => Some(digest@),
                None => None,
            },
            proof_valid: self.proof_valid,
            digest_matches: self.digest_matches,
        }
    }
}

/// The bytes of an expected digest, where one is given.
pub open spec fn expected_view(expected: Option<&[u8; 32]>) -> Option<Seq<u8>> {
    match expected {
        Some(digest) => Some(digest@),
        None => None,
    }
}

/// The report on a proof with the given journal, of which the engine said
/// `proof_valid`, against the expected digest. The journal decides the
/// first field, the engine the second, and neither looks at the other.
pub open spec fn report_for(journal: Seq<u8>, proof_valid: bool, expected: Option<Seq<u8>>) -> ReportView {
    ReportView {
        decoded: journal_digest(journal),
        proof_valid,
        digest_matches: match (journal_digest(journal), expected) {
            (Some(found), Some(wanted)) => Some(found == wanted),
            _ => None,
        },
    }
}

impl ReportView {
    /// Every check that failed, in the order of the checks.
    pub open spec fn failures(self) -> Seq<Failure> {
        (if self.decoded is None {
            seq![Failure::ProofDecode]
        } else {
            Seq::<Failure>::empty()
        }) + (if !self.proof_valid {
            seq![Failure::ProofInvalid]
        } else {
            Seq::<Failure>::empty()
        }) + (if self.digest_matches == Some(false) {
            seq![Failure::DigestMismatch]
        } else {
            Seq::<Failure>::empty()
        })
    }

    /// No check failed.
    pub open spec fn accepted(self) -> bool {
        self.decoded is Some && self.proof_valid && self.digest_matches != Some(false)
    }

    /// The digest that was proved, or the gravest failure: an invalid proof
    /// before an unreadable journal before a digest other than expected.
    pub open spec fn outcome(self) -> Result<Seq<u8>, Failure> {
        if !self.proof_valid {
            Err(Failure::ProofInvalid)
        } else if self.decoded is None {
            Err(Failure::ProofDecode)
        } else if self.digest_matches == Some(false) {
            Err(Failure::DigestMismatch)
        } else {
            Ok(self.decoded->0)
        }
    }
}

/// Makes the journal's two checks and records the engine's verdict beside
/// them. No check is skipped on account of another.
pub fn assess(journal: &[u8], proof_valid: bool, expected: Option<&[u8; 32]>) -> (report:
    VerificationReport)
    ensures
        report@ == report_for(journal@, proof_valid, expected_view(expected)),
{
    let decoded = match decode_journal(journal) {
        Ok(digest) => Some(digest),
        Err(_) => None,
    };
    let digest_matches = match (&decoded, expected) {
        (Some(found), Some(wanted)) => Some(digests_equal(found, wanted)),
        _ => None,
    };
    VerificationReport { decoded, proof_valid, digest_matches }
}

/// The receipt of `risc0_zkvm`: a journal and the seal that vouches for it.
/// Verified code holds it without looking inside.
#[verifier::external_type_specification]
#[verifier::external_body]
pub struct ExReceipt(risc0_zkvm::Receipt);

/// The bytes of the journal that a receipt carries.
pub uninterp spec fn receipt_journal(receipt: risc0_zkvm::Receipt) -> Seq<u8>;

/// Copies the field `journal.bytes` of a `risc0_zkvm::Receipt`. Trusted:
/// the copy holds the journal of the receipt.
#[verifier::external_body]
fn read_journal(receipt: &risc0_zkvm::Receipt) -> (journal: Vec<u8>)
    ensures
        journal@ == receipt_journal(*receipt),
{
    receipt.journal.bytes.clone()
}

/// Calls `risc0_zkvm::Receipt::verify` and says whether it returned `Ok`.
/// Nothing is claimed of the answer: it is the engine's, and with a receipt
/// made for development it follows the variable `RISC0_DEV_MODE`.
#[verifier::external_body]
fn engine_accepts(receipt: &risc0_zkvm::Receipt, image_id: &[u32; 8]) -> (accepted: bool) {
    receipt.verify(*image_id).is_ok()
}

/// Verifies a receipt against the identity of the program that should have
/// produced it. The engine is asked whatever the journal holds, and the
/// journal is read whatever the engine says.
pub fn verify_receipt(
    receipt: &risc0_zkvm::Receipt,
    image_id: &[u32; 8],
    expected: Option<&[u8; 32]>,
) -> (report: VerificationReport)
    ensures
        report@ == report_for(
            receipt_journal(*receipt),
            report.proof_valid,
            expected_view(expected),
        ),
{
    let journal = read_journal(receipt);
    let proof_valid = engine_accepts(receipt, image_id);
    assess(journal.as_slice(), proof_valid, expected)
}

impl VerificationReport {
    /// Every check that failed, in the order of the checks.
    pub fn failures(&self) -> (list: Vec<Failure>)
        ensures
            list@ == self@.failures(),
    {
        let mut list: Vec<Failure> = Vec::new();
        if self.decoded.is_none() {
            list.push(Failure::ProofDecode);
        }
        if !self.proof_valid {
            list.push(Failure::ProofInvalid);
        }
        if let Some(false) = self.digest_matches {
            list.push(Failure::DigestMismatch);
        }
        assert(list@ =~= self@.failures());
        list
    }

    /// Whether no check failed.
    pub fn is_accepted(&self) -> (answer: bool)
        ensures
            answer == self@.accepted(),
            answer == (self@.failures().len() == 0),
    {
        let matches = match self.digest_matches {
            Some(false) => false,
            _ => true,
        };
        self.decoded.is_some() && self.proof_valid && matches
    }

    /// The digest that was proved, or the gravest failure.
    pub fn outcome(&self) -> (result: Result<[u8; 32], Failure>)
        ensures
            match result {
                Ok(digest) => self@.outcome() == Ok::<Seq<u8>, Failure>(digest@),
                Err(failure) => self@.outcome() == Err::<Seq<u8>, Failure>(failure),
            },
    {
        if !self.proof_valid {
            return Err(Failure::ProofInvalid);
        }
        match self.decoded {
            None => Err(Failure::ProofDecode),
            Some(digest) => {
                if let Some(false) = self.digest_matches {
                    Err(Failure::DigestMismatch)
                } else {
                    Ok(digest)
                }
            },
        }
    }
}

/// An invalid proof is always surfaced as such: whatever its journal holds
/// and whatever digest was expected, the report is not accepted, lists the
/// failed cryptographic check, and has it as its outcome.
pub proof fn lemma_invalid_proof_surfaced(journal: Seq<u8>, expected: Option<Seq<u8>>)
    ensures
        !report_for(journal, false, expected).accepted(),
        report_for(journal, false, expected).failures().contains(Failure::ProofInvalid),
        report_for(journal, false, expected).outcome() == Err::<Seq<u8>, Failure>(
            Failure::ProofInvalid,
        ),
{
    let report = report_for(journal, false, expected);
    let head = if report.decoded is None {
        seq![Failure::ProofDecode]
    } else {
        Seq::<Failure>::empty()
    };
    assert(report.failures()[head.len() as int] == Failure::ProofInvalid);
}

/// The checks do not look at each other: what is read from the journal is
/// the same whatever the engine said, the comparison is the same whatever
/// the engine said, and the engine's verdict is recorded whatever the
/// journal and the expected digest are.
pub proof fn lemma_checks_independent(
    journal: Seq<u8>,
    expected: Option<Seq<u8>>,
    journal2: Seq<u8>,
    expected2: Option<Seq<u8>>,
    proof_valid: bool,
)
    ensures
        report_for(journal, true, expected).decoded == report_for(journal, false, expected).decoded,
        report_for(journal, true, expected).digest_matches == report_for(
            journal,
            false,
            expected,
        ).digest_matches,
        report_for(journal, proof_valid, expected).proof_valid == proof_valid,
        report_for(journal2, proof_valid, expected2).proof_valid == proof_valid,
{
}

/// A digest mismatch is reported only of a valid, readable proof, and never
/// in place of a failed cryptographic check.
pub proof fn lemma_mismatch_outcome(journal: Seq<u8>, proof_valid: bool, expected: Option<Seq<u8>>)
    ensures
        report_for(journal, proof_valid, expected).outcome() == Err::<Seq<u8>, Failure>(
            Failure::DigestMismatch,
        ) <==> proof_valid && expected is Some && journal_digest(journal) is Some && journal_digest(
            journal,
        ) != expected,
{
}

/// Round trip: the journal written for a digest, under a proof that the
/// engine accepts, is reported as that digest with no failure, also where
/// that digest is the expected one.
pub proof fn lemma_honest_proof_accepted(digest: Seq<u8>)
    requires
        digest.len() == 32,
    ensures
        report_for(journal_of(digest), true, Some(digest)).accepted(),
        report_for(journal_of(digest), true, Some(digest)).failures().len() == 0,
        report_for(journal_of(digest), true, Some(digest)).outcome() == Ok::<Seq<u8>, Failure>(
            digest,
        ),
        report_for(journal_of(digest), true, None).outcome() == Ok::<Seq<u8>, Failure>(digest),
{
    lemma_journal_round_trip(digest);
}

/// Tampering with the journal is detected: a journal of 128 bytes that
/// differs from the one written for the expected digest is never accepted.
pub proof fn lemma_tampered_journal_rejected(journal: Seq<u8>, digest: Seq<u8>, proof_valid: bool)
    requires
        digest.len() == 32,
        journal.len() == 128,
        journal != journal_of(digest),
    ensures
        !report_for(journal, proof_valid, Some(digest)).accepted(),
        report_for(journal, proof_valid, Some(digest)).outcome() is Err,
{
    if journal_digest(journal) == Some(digest) {
        lemma_journal_unique(journal, digest);
    }
}

} // verus!
