//! A hash commitment to a 64-bit value under a 64-bit salt.

use crate::failure::Failure;
use crate::hash::{digest_of, sha256_of};
use vstd::bytes::{
    lemma_auto_spec_u64_to_from_le_bytes, spec_u64_from_le_bytes, spec_u64_to_le_bytes,
    u64_from_le_bytes, u64_to_le_bytes,
};
use vstd::prelude::*;
use vstd::slice::slice_subrange;

verus! {

/// The sixteen bytes that are hashed to commit to `value` under `salt`:
/// both integers in little-endian order, the value first.
pub open spec fn commitment_preimage(value: u64, salt: u64) -> Seq<u8> {
    spec_u64_to_le_bytes(value) + spec_u64_to_le_bytes(salt)
}

/// The commitment to `value` under `salt`: the first eight bytes of the
/// SHA-256 digest of the preimage, read as a little-endian integer.
pub open spec fn commitment_of(value: u64, salt: u64) -> u64 {
    spec_u64_from_le_bytes(sha256_of(commitment_preimage(value, salt)).subrange(0, 8))
}

/// Whether `(value, salt)` opens the commitment `hash`.
pub open spec fn opens(hash: u64, value: u64, salt: u64) -> bool {
    hash == commitment_of(value, salt)
}

/// Commits to `value` under `salt`.
pub fn create_commitment(value: u64, salt: u64) -> (hash: u64)
    ensures
        hash == commitment_of(value, salt),
{
    let mut preimage = u64_to_le_bytes(value);
    let mut salt_bytes = u64_to_le_bytes(salt);
    preimage.append(&mut salt_bytes);
    assert(preimage@ == commitment_preimage(value, salt));
    let digest = digest_of(preimage.as_slice());
    let head = slice_subrange(digest.as_slice(), 0, 8);
    u64_from_le_bytes(head)
}

/// Recomputes the commitment to `value` under `salt` and compares it with
/// `hash`. Any mismatch gives `false`; no input is an error.
pub fn verify_commitment(hash: u64, value: u64, salt: u64) -> (ok: bool)
    ensures
        ok == opens(hash, value, salt),
{
    create_commitment(value, salt) == hash
}

/// Checks an opening, reporting a rejected one as a failure.
pub fn check_commitment(hash: u64, value: u64, salt: u64) -> (checked: Result<(), Failure>)
    ensures
        checked is Ok <==> opens(hash, value, salt),
        checked is Err ==> checked == Err::<(), Failure>(Failure::CommitmentMismatch),
{
    if verify_commitment(hash, value, salt) {
        Ok(())
    } else {
        Err(Failure::CommitmentMismatch)
    }
}

/// What one round of the scheme shows: the commitment, whether its own
/// opening was accepted, and whether an opening with another value was.
#[derive(Clone, Copy, Debug, PartialEq, Eq)]
pub struct CommitmentRound {
    pub commitment: u64,
    pub honest_accepted: bool,
    pub forged_accepted: bool,
}

/// Commits to `value` under `salt`, then checks the commitment twice: once
/// against the value committed to, once against `forged_value`.
pub fn run_commitment_round(value: u64, salt: u64, forged_value: u64) -> (round: CommitmentRound)
    ensures
        round.commitment == commitment_of(value, salt),
        round.honest_accepted,
        round.forged_accepted == opens(commitment_of(value, salt), forged_value, salt),
{
    let commitment = create_commitment(value, salt);
    let honest_accepted = verify_commitment(commitment, value, salt);
    let forged_accepted = verify_commitment(commitment, forged_value, salt);
    CommitmentRound { commitment, honest_accepted, forged_accepted }
}

/// Completeness: a commitment is opened by the pair it was made from.
pub proof fn lemma_commitment_opens(value: u64, salt: u64)
    ensures
        opens(commitment_of(value, salt), value, salt),
{
}

/// Determinism: equal pairs have equal commitments.
pub proof fn lemma_commitment_deterministic(value: u64, salt: u64, value2: u64, salt2: u64)
    requires
        value == value2,
        salt == salt2,
    ensures
        commitment_of(value, salt) == commitment_of(value2, salt2),
{
}

/// Distinct pairs are hashed from distinct preimages.
pub proof fn lemma_preimage_injective(value: u64, salt: u64, value2: u64, salt2: u64)
    requires
        commitment_preimage(value, salt) == commitment_preimage(value2, salt2),
    ensures
        value == value2,
        salt == salt2,
{
    lemma_auto_spec_u64_to_from_le_bytes();
    let left = commitment_preimage(value, salt);
    let right = commitment_preimage(value2, salt2);
    assert(left.subrange(0, 8) =~= spec_u64_to_le_bytes(value));
    assert(right.subrange(0, 8) =~= spec_u64_to_le_bytes(value2));
    assert(left.subrange(8, 16) =~= spec_u64_to_le_bytes(salt));
    assert(right.subrange(8, 16) =~= spec_u64_to_le_bytes(salt2));
}

/// Soundness up to collisions: an opening with another value is accepted
/// exactly when the two commitments collide, and the colliding digests then
/// belong to two different preimages.
pub proof fn lemma_forgery_needs_collision(value: u64, salt: u64, forged_value: u64)
    requires
        forged_value != value,
    ensures
        commitment_preimage(forged_value, salt) != commitment_preimage(value, salt),
        opens(commitment_of(value, salt), forged_value, salt) <==> commitment_of(
            forged_value,
            salt,
        ) == commitment_of(value, salt),
{
    if commitment_preimage(forged_value, salt) == commitment_preimage(value, salt) {
        lemma_preimage_injective(forged_value, salt, value, salt);
    }
}

/// Fraud detection: where the commitments of two values under one salt
/// differ, the commitment to the first is not opened by the second.
pub proof fn lemma_forgery_rejected(value: u64, salt: u64, forged_value: u64)
    requires
        forged_value != value,
        commitment_of(forged_value, salt) != commitment_of(value, salt),
    ensures
        !opens(commitment_of(value, salt), forged_value, salt),
{
}

} // verus!
