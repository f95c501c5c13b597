//! The prover's side of a proof of knowledge: what may be proved of a
//! secret, and what the proved program makes public of it.

use crate::failure::Failure;
use crate::hash::{digest_of, sha256_of};
use crate::journal::{
    encode_journal, journal_digest, journal_of, lemma_journal_round_trip, JOURNAL_LEN,
};
use vstd::prelude::*;

verus! {

/// The longest secret that can be handed to the proving engine: its input
/// framing counts the bytes in one 32-bit word.
pub const MAX_SECRET_LEN: u64 = 0xffff_ffff;

/// Whether a secret can be proved knowledge of: it is not empty and its
/// length fits the engine's input framing.
pub open spec fn secret_admissible(secret: Seq<u8>) -> bool {
    0 < secret.len() <= MAX_SECRET_LEN
}

/// Checks a secret before any proof of it is attempted.
pub fn check_secret(secret: &[u8]) -> (checked: Result<(), Failure>)
    ensures
        checked is Ok <==> secret_admissible(secret@),
        checked is Err ==> checked == Err::<(), Failure>(Failure::ProofGeneration),
{
    let len = secret.len();
    if len == 0 || len as u64 > MAX_SECRET_LEN {
        Err(Failure::ProofGeneration)
    } else {
        Ok(())
    }
}

/// The digest that a proof of knowledge of `secret` will make public. An
/// inadmissible secret has none: no proof of it can be generated.
pub fn expected_digest(secret: &[u8]) -> (expected: Result<[u8; 32], Failure>)
    ensures
        match expected {
            Ok(digest) => secret_admissible(secret@) && digest@ == sha256_of(secret@),
            Err(failure) => !secret_admissible(secret@) && failure == Failure::ProofGeneration,
        },
{
    match check_secret(secret) {
        Ok(()) => Ok(digest_of(secret)),
        Err(failure) => Err(failure),
    }
}

/// What the proved program does with the secret it is given: it hashes the
/// secret and commits the journal of the digest. Nothing else of the secret
/// reaches the journal, and the journal reads back as that digest.
pub fn guest_journal(secret: &[u8]) -> (journal: Vec<u8>)
    ensures
        journal@ == journal_of(sha256_of(secret@)),
        journal@.len() == JOURNAL_LEN,
        journal_digest(journal@) == Some(sha256_of(secret@)),
{
    let digest = digest_of(secret);
    proof {
        lemma_journal_round_trip(digest@);
    }
    encode_journal(&digest)
}

} // verus!
