use zk_commit::commitment::check_commitment;
use zk_commit::create_commitment;
use zk_commit::failure::Failure;
use zk_commit::verdict::{verdict_from_byte, verdict_to_byte, UnspecifiedVerdict};

#[test]
fn verdict_bytes() {
    assert_eq!(verdict_to_byte(true), 1);
    assert_eq!(verdict_to_byte(false), 0);
    assert_eq!(verdict_from_byte(1), Ok(true));
    assert_eq!(verdict_from_byte(0), Ok(false));
}

#[test]
fn other_bytes_are_no_verdict() {
    for byte in 2..=255u8 {
        assert_eq!(verdict_from_byte(byte), Err(UnspecifiedVerdict { byte }));
    }
}

#[test]
fn verdict_round_trip() {
    assert_eq!(verdict_from_byte(verdict_to_byte(true)), Ok(true));
    assert_eq!(verdict_from_byte(verdict_to_byte(false)), Ok(false));
}

#[test]
fn rejected_opening_is_a_commitment_mismatch() {
    let hash = create_commitment(42, 12345);
    assert_eq!(check_commitment(hash, 42, 12345), Ok(()));
    assert_eq!(check_commitment(hash, 99, 12345), Err(Failure::CommitmentMismatch));
    assert_eq!(check_commitment(hash, 42, 12346), Err(Failure::CommitmentMismatch));
    assert_eq!(check_commitment(hash.wrapping_add(1), 42, 12345), Err(Failure::CommitmentMismatch));
}

#[test]
fn failure_classes() {
    assert!(Failure::CommitmentMismatch.is_recoverable());
    assert!(Failure::DigestMismatch.is_recoverable());
    assert!(!Failure::ProofGeneration.is_recoverable());
    assert!(!Failure::ProofDecode.is_recoverable());
    assert!(!Failure::ProofInvalid.is_recoverable());
    assert!(Failure::ProofInvalid.is_fatal());
    assert!(Failure::ProofDecode.is_fatal());
    assert!(Failure::ProofGeneration.is_fatal());
    assert!(!Failure::DigestMismatch.is_fatal());
    assert!(!Failure::CommitmentMismatch.is_fatal());
    assert!(Failure::ProofGeneration.is_retryable());
    assert!(!Failure::ProofDecode.is_retryable());
    assert!(!Failure::ProofInvalid.is_retryable());
    assert!(!Failure::DigestMismatch.is_retryable());
    assert!(!Failure::CommitmentMismatch.is_retryable());
}
