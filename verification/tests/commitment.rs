use zk_commit::commitment::{run_commitment_round, CommitmentRound};
use zk_commit::{create_commitment, verify_commitment};

#[test]
fn create_gives_the_truncated_digest_of_the_pair() {
    assert_eq!(create_commitment(42, 12345), 9043931117954048523);
    assert_eq!(create_commitment(99, 12345), 15804392328391846367);
    assert_eq!(create_commitment(0, 0), 15392584411371816759);
    assert_eq!(create_commitment(u64::MAX, u64::MAX), 671060944249800282);
}

#[test]
fn honest_opening_is_accepted_and_forged_one_is_not() {
    let hash = create_commitment(42, 12345);
    assert!(verify_commitment(hash, 42, 12345));
    assert!(!verify_commitment(hash, 99, 12345));
}

#[test]
fn round_reports_both_checks() {
    let round = run_commitment_round(42, 12345, 99);
    assert_eq!(
        round,
        CommitmentRound {
            commitment: 9043931117954048523,
            honest_accepted: true,
            forged_accepted: false,
        }
    );
}

#[test]
fn create_is_deterministic() {
    for (value, salt) in [(0u64, 0u64), (42, 12345), (u64::MAX, 1), (7, u64::MAX)] {
        assert_eq!(create_commitment(value, salt), create_commitment(value, salt));
        assert!(verify_commitment(create_commitment(value, salt), value, salt));
    }
}

#[test]
fn value_and_salt_are_not_interchangeable() {
    assert_eq!(create_commitment(1, 2), 17824786150486405900);
    assert_eq!(create_commitment(2, 1), 12558782750033953638);
    assert!(!verify_commitment(create_commitment(1, 2), 2, 1));
    assert_eq!(create_commitment(42, 12346), 16692987641116999469);
    assert!(!verify_commitment(create_commitment(42, 12345), 42, 12346));
}

#[test]
fn nearby_values_do_not_open_a_commitment() {
    let hash = create_commitment(42, 12345);
    for forged in 0..200u64 {
        assert_eq!(verify_commitment(hash, forged, 12345), forged == 42);
    }
}
