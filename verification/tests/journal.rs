use zk_commit::failure::Failure;
use zk_commit::hash::{digest_of, digests_equal};
use zk_commit::journal::{decode_journal, encode_journal, join_words, split_words, word_from_le};

fn sample_digest() -> [u8; 32] {
    let mut digest = [0u8; 32];
    for (i, byte) in digest.iter_mut().enumerate() {
        *byte = (i as u8).wrapping_mul(7).wrapping_add(200);
    }
    digest
}

#[test]
fn sha256_of_known_inputs() {
    assert_eq!(
        digest_of(b"abc"),
        [
            186, 120, 22, 191, 143, 1, 207, 234, 65, 65, 64, 222, 93, 174, 34, 35, 176, 3, 97,
            163, 150, 23, 122, 156, 180, 16, 255, 97, 242, 0, 21, 173
        ]
    );
    assert_eq!(
        digest_of(b""),
        [
            227, 176, 196, 66, 152, 252, 28, 20, 154, 251, 244, 200, 153, 111, 185, 36, 39, 174,
            65, 228, 100, 155, 147, 76, 164, 149, 153, 27, 120, 82, 184, 85
        ]
    );
}

#[test]
fn digest_comparison_sees_every_byte() {
    let digest = sample_digest();
    assert!(digests_equal(&digest, &digest));
    for i in 0..32 {
        let mut other = digest;
        other[i] ^= 1;
        assert!(!digests_equal(&digest, &other));
    }
}

#[test]
fn words_are_little_endian() {
    assert_eq!(word_from_le(0x78, 0x56, 0x34, 0x12), 0x1234_5678);
    assert_eq!(split_words(&[1, 0, 0, 0, 0, 1, 0, 0]), Some(vec![1, 256]));
    assert_eq!(split_words(&[]), Some(vec![]));
    assert_eq!(split_words(&[1, 2, 3]), None);
    assert_eq!(split_words(&[1, 2, 3, 4, 5]), None);
    assert_eq!(
        join_words(&[0x1234_5678, 0xff]),
        vec![0x78, 0x56, 0x34, 0x12, 0xff, 0, 0, 0]
    );
}

#[test]
fn journal_of_a_digest_has_one_word_for_each_byte() {
    let digest = sample_digest();
    let journal = encode_journal(&digest);
    assert_eq!(journal.len(), 128);
    for k in 0..128 {
        let want = if k % 4 == 0 { digest[k / 4] } else { 0 };
        assert_eq!(journal[k], want);
    }
}

#[test]
fn journal_round_trip() {
    let digest = sample_digest();
    assert_eq!(decode_journal(&encode_journal(&digest)), Ok(digest));
    let zero = [0u8; 32];
    assert_eq!(decode_journal(&encode_journal(&zero)), Ok(zero));
    let full = [255u8; 32];
    assert_eq!(decode_journal(&encode_journal(&full)), Ok(full));
}

#[test]
fn short_or_ragged_journal_is_a_decode_failure() {
    let journal = encode_journal(&sample_digest());
    assert_eq!(decode_journal(&[]), Err(Failure::ProofDecode));
    assert_eq!(decode_journal(&journal[..124]), Err(Failure::ProofDecode));
    assert_eq!(decode_journal(&journal[..127]), Err(Failure::ProofDecode));
    assert_eq!(decode_journal(&journal[1..]), Err(Failure::ProofDecode));
    let mut ragged = journal.clone();
    ragged.push(0);
    assert_eq!(decode_journal(&ragged), Err(Failure::ProofDecode));
    // The raw digest is not its journal.
    assert_eq!(decode_journal(&sample_digest()), Err(Failure::ProofDecode));
}

#[test]
fn word_larger_than_a_byte_is_a_decode_failure() {
    let journal = encode_journal(&sample_digest());
    for k in 0..128 {
        if k % 4 != 0 {
            let mut bad = journal.clone();
            bad[k] = 1;
            assert_eq!(decode_journal(&bad), Err(Failure::ProofDecode));
        }
    }
}

#[test]
fn words_after_the_digest_are_not_read() {
    let digest = sample_digest();
    let mut journal = encode_journal(&digest);
    journal.extend_from_slice(&[9, 9, 9, 9, 1, 2, 3, 4]);
    assert_eq!(decode_journal(&journal), Ok(digest));
}

#[test]
fn changing_a_digest_byte_of_the_journal_changes_what_is_read() {
    let digest = sample_digest();
    let journal = encode_journal(&digest);
    for i in 0..32 {
        let mut other = journal.clone();
        other[4 * i] ^= 0x80;
        let mut want = digest;
        want[i] ^= 0x80;
        assert_eq!(decode_journal(&other), Ok(want));
    }
}
