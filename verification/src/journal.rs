//! The journal of a proof: the public output of the proved program, here
//! one digest laid out as thirty-two little-endian words of one byte each.

use crate::failure::Failure;
use vstd::pervasive::unreached;
use vstd::prelude::*;

verus! {

/// Number of bytes in the journal of a digest.
pub const JOURNAL_LEN: usize = 128;

/// The word whose little-endian bytes are `b0`, `b1`, `b2`, `b3`.
pub open spec fn le_word(b0: u8, b1: u8, b2: u8, b3: u8) -> u32 {
    (b0 as u32) | ((b1 as u32) << 8) | ((b2 as u32) << 16) | ((b3 as u32) << 24)
}

/// The `k`-th little-endian byte of `word`, for `k` from 0 to 3.
pub open spec fn le_byte(word: u32, k: int) -> u8 {
    if k == 0 {
        (word & 0xff) as u8
    } else if k == 1 {
        ((word >> 8) & 0xff) as u8
    } else if k == 2 {
        ((word >> 16) & 0xff) as u8
    } else {
        ((word >> 24) & 0xff) as u8
    }
}

/// The `i`-th word of a byte sequence.
pub open spec fn word_at(bytes: Seq<u8>, i: int) -> u32 {
    le_word(bytes[4 * i], bytes[4 * i + 1], bytes[4 * i + 2], bytes[4 * i + 3])
}

/// The whole words of a byte sequence, in order.
pub open spec fn words_of(bytes: Seq<u8>) -> Seq<u32> {
    Seq::new((bytes.len() / 4) as nat, |i: int| word_at(bytes, i))
}

/// The bytes of a sequence of words, each word in little-endian order.
pub open spec fn bytes_of(words: Seq<u32>) -> Seq<u8> {
    Seq::new(4 * words.len(), |k: int| le_byte(words[k / 4], k % 4))
}

/// The bytes of an assembled word are the bytes it was assembled from, and
/// the word holds one byte exactly when the three high bytes are zero.
pub proof fn lemma_le_word_bytes(b0: u8, b1: u8, b2: u8, b3: u8)
    ensures
        le_byte(le_word(b0, b1, b2, b3), 0) == b0,
        le_byte(le_word(b0, b1, b2, b3), 1) == b1,
        le_byte(le_word(b0, b1, b2, b3), 2) == b2,
        le_byte(le_word(b0, b1, b2, b3), 3) == b3,
        le_word(b0, b1, b2, b3) <= 0xff <==> b1 == 0 && b2 == 0 && b3 == 0,
{
    let w = le_word(b0, b1, b2, b3);
    assert(((b0 as u32) | ((b1 as u32) << 8) | ((b2 as u32) << 16) | ((b3 as u32) << 24)) & 0xff
        == b0 as u32) by (bit_vector);
    assert((((b0 as u32) | ((b1 as u32) << 8) | ((b2 as u32) << 16) | ((b3 as u32) << 24)) >> 8)
        & 0xff == b1 as u32) by (bit_vector);
    assert((((b0 as u32) | ((b1 as u32) << 8) | ((b2 as u32) << 16) | ((b3 as u32) << 24)) >> 16)
        & 0xff == b2 as u32) by (bit_vector);
    assert((((b0 as u32) | ((b1 as u32) << 8) | ((b2 as u32) << 16) | ((b3 as u32) << 24)) >> 24)
        & 0xff == b3 as u32) by (bit_vector);
    assert(((b0 as u32) | ((b1 as u32) << 8) | ((b2 as u32) << 16) | ((b3 as u32) << 24)) <= 0xff
        <==> b1 == 0 && b2 == 0 && b3 == 0) by (bit_vector);
}

/// A word is assembled back from its four bytes.
pub proof fn lemma_le_bytes_word(word: u32)
    ensures
        le_word(le_byte(word, 0), le_byte(word, 1), le_byte(word, 2), le_byte(word, 3)) == word,
{
    assert(word & 0xff <= 0xff && (word >> 8) & 0xff <= 0xff && (word >> 16) & 0xff <= 0xff && (
    word >> 24) & 0xff <= 0xff) by (bit_vector);
    assert(((word & 0xff) | (((word >> 8) & 0xff) << 8) | (((word >> 16) & 0xff) << 16) | (((word
        >> 24) & 0xff) << 24)) == word) by (bit_vector);
}

/// The byte at place `4 * i + j` of words laid out as bytes is the `j`-th
/// byte of the `i`-th word.
proof fn lemma_byte_place(words: Seq<u32>, i: int, j: int)
    requires
        0 <= i < words.len(),
        0 <= j < 4,
    ensures
        bytes_of(words)[4 * i + j] == le_byte(words[i], j),
{
    let k = 4 * i + j;
    assert(k / 4 == i && k % 4 == j);
    assert(0 <= k < 4 * words.len());
}

/// Words laid out as bytes split back into the same words.
pub proof fn lemma_words_round_trip(words: Seq<u32>)
    ensures
        bytes_of(words).len() == 4 * words.len(),
        words_of(bytes_of(words)) == words,
{
    let bytes = bytes_of(words);
    assert(bytes.len() / 4 == words.len());
    assert forall|i: int| 0 <= i < words.len() implies word_at(bytes, i) == words[i] by {
        lemma_le_bytes_word(words[i]);
        lemma_byte_place(words, i, 0);
        lemma_byte_place(words, i, 1);
        lemma_byte_place(words, i, 2);
        lemma_byte_place(words, i, 3);
    }
    assert(words_of(bytes) =~= words);
}

/// A whole number of words, split and laid out again, gives the same bytes.
pub proof fn lemma_bytes_round_trip(bytes: Seq<u8>)
    requires
        bytes.len() % 4 == 0,
    ensures
        bytes_of(words_of(bytes)) == bytes,
{
    let words = words_of(bytes);
    assert(4 * words.len() == bytes.len());
    assert forall|k: int| 0 <= k < bytes.len() implies bytes_of(words)[k] == bytes[k] by {
        let i = k / 4;
        let j = k % 4;
        assert(k == 4 * i + j && 0 <= i < words.len());
        lemma_le_word_bytes(bytes[4 * i], bytes[4 * i + 1], bytes[4 * i + 2], bytes[4 * i + 3]);
        assert(words[i] == word_at(bytes, i));
        lemma_byte_place(words, i, j);
    }
    assert(bytes_of(words) =~= bytes);
}

/// Assembles a word from its little-endian bytes.
pub fn word_from_le(b0: u8, b1: u8, b2: u8, b3: u8) -> (word: u32)
    ensures
        word == le_word(b0, b1, b2, b3),
{
    (b0 as u32) | ((b1 as u32) << 8) | ((b2 as u32) << 16) | ((b3 as u32) << 24)
}

/// Splits a byte string into its little-endian words. A string whose length
/// is no multiple of four has no such split.
pub fn split_words(bytes: &[u8]) -> (words: Option<Vec<u32>>)
    ensures
        words is Some <==> bytes@.len() % 4 == 0,
        words is Some ==> words->0@ == words_of(bytes@),
{
    let len = bytes.len();
    if len % 4 != 0 {
        return None;
    }
    let count = len / 4;
    let mut words: Vec<u32> = Vec::with_capacity(count);
    let mut i: usize = 0;
    while i < count
        invariant
            i <= count,
            4 * count == len,
            len == bytes@.len(),
            words@.len() == i,
            forall|k: int| 0 <= k < i ==> words@[k] == word_at(bytes@, k),
        decreases count - i,
    {
        let at = 4 * i;
        let word = word_from_le(bytes[at], bytes[at + 1], bytes[at + 2], bytes[at + 3]);
        words.push(word);
        i += 1;
    }
    assert(words@ =~= words_of(bytes@));
    Some(words)
}

/// Lays words out as bytes, each word in little-endian order.
pub fn join_words(words: &[u32]) -> (bytes: Vec<u8>)
    requires
        4 * words@.len() <= usize::MAX,
    ensures
        bytes@ == bytes_of(words@),
{
    let mut bytes: Vec<u8> = Vec::with_capacity(4 * words.len());
    let mut i: usize = 0;
    while i < words.len()
        invariant
            i <= words@.len(),
            4 * words@.len() <= usize::MAX,
            bytes@.len() == 4 * i,
            forall|k: int| 0 <= k < 4 * i ==> bytes@[k] == le_byte(words@[k / 4], k % 4),
        decreases words@.len() - i,
    {
        let word = words[i];
        assert(word & 0xff <= 0xff && (word >> 8) & 0xff <= 0xff && (word >> 16) & 0xff <= 0xff
            && (word >> 24) & 0xff <= 0xff) by (bit_vector);
        bytes.push((word & 0xff) as u8);
        bytes.push(((word >> 8) & 0xff) as u8);
        bytes.push(((word >> 16) & 0xff) as u8);
        bytes.push(((word >> 24) & 0xff) as u8);
        i += 1;
    }
    assert(bytes@ =~= bytes_of(words@));
    bytes
}

/// Whether a sequence of words begins with a digest: thirty-two words, each
/// of them the value of one byte. Words after these are of no account.
pub open spec fn words_carry_digest(words: Seq<u32>) -> bool {
    words.len() >= 32 && forall|i: int| 0 <= i < 32 ==> words[i] <= 0xff
}

/// The digest at the head of a sequence of words.
pub open spec fn digest_carried(words: Seq<u32>) -> Seq<u8> {
    Seq::new(32, |i: int| words[i] as u8)
}

/// The words that carry a digest: one word for each byte.
pub open spec fn digest_words(digest: Seq<u8>) -> Seq<u32> {
    Seq::new(32, |i: int| digest[i] as u32)
}

/// The digest that a journal holds, if it holds one.
pub open spec fn journal_digest(journal: Seq<u8>) -> Option<Seq<u8>> {
    if journal.len() % 4 == 0 && words_carry_digest(words_of(journal)) {
        Some(digest_carried(words_of(journal)))
    } else {
        None
    }
}

/// The journal that holds `digest` and nothing else.
pub open spec fn journal_of(digest: Seq<u8>) -> Seq<u8> {
    bytes_of(digest_words(digest))
}

/// The error of `risc0_zkvm::serde`, which verified code passes on unread.
#[verifier::external_type_specification]
#[verifier::external_body]
pub struct ExJournalError(risc0_zkvm::serde::Error);

/// Calls `risc0_zkvm::serde::from_slice` to read a `[u8; 32]` from words.
/// Trusted: the call reads one word for each of the thirty-two bytes, in
/// order, and fails where a word is missing or is larger than a byte; it
/// does not look at the words that follow.
#[verifier::external_body]
fn deserialize_digest(words: &[u32]) -> (decoded: Result<[u8; 32], risc0_zkvm::serde::Error>)
    ensures
        decoded is Ok <==> words_carry_digest(words@),
        decoded is Ok ==> decoded->Ok_0@ == digest_carried(words@),
{
    risc0_zkvm::serde::from_slice::<[u8; 32], u32>(words)
}

/// Calls `risc0_zkvm::serde::to_vec` on a `[u8; 32]`. Trusted: the call
/// cannot fail on such an array, and writes one word for each byte, in
/// order.
#[verifier::external_body]
fn serialize_digest(digest: &[u8; 32]) -> (words: Result<Vec<u32>, risc0_zkvm::serde::Error>)
    ensures
        words is Ok,
        words->Ok_0@ == digest_words(digest@),
{
    risc0_zkvm::serde::to_vec(digest)
}

/// Reads the digest that a journal holds. The journal must be a whole
/// number of words and begin with the thirty-two words of a digest.
pub fn decode_journal(journal: &[u8]) -> (decoded: Result<[u8; 32], Failure>)
    ensures
        match decoded {
            Ok(digest) => journal_digest(journal@) == Some(digest@),
            Err(failure) => failure == Failure::ProofDecode && journal_digest(journal@) is None,
        },
{
    match split_words(journal) {
        None => Err(Failure::ProofDecode),
        Some(words) => match deserialize_digest(words.as_slice()) {
            Ok(digest) => Ok(digest),
            Err(_) => Err(Failure::ProofDecode),
        },
    }
}

/// Writes the journal that holds `digest` and nothing else.
pub fn encode_journal(digest: &[u8; 32]) -> (journal: Vec<u8>)
    ensures
        journal@ == journal_of(digest@),
        journal@.len() == JOURNAL_LEN,
{
    match serialize_digest(digest) {
        Ok(words) => join_words(words.as_slice()),
        Err(_) => unreached(),
    }
}

/// The little-endian bytes of a word that holds one byte: that byte, then
/// three zeros.
pub proof fn lemma_byte_word(byte: u8)
    ensures
        le_byte(byte as u32, 0) == byte,
        le_byte(byte as u32, 1) == 0,
        le_byte(byte as u32, 2) == 0,
        le_byte(byte as u32, 3) == 0,
        le_word(byte, 0, 0, 0) == byte as u32,
{
    assert((byte as u32) & 0xff == byte as u32) by (bit_vector);
    assert(((byte as u32) >> 8) & 0xff == 0) by (bit_vector);
    assert(((byte as u32) >> 16) & 0xff == 0) by (bit_vector);
    assert(((byte as u32) >> 24) & 0xff == 0) by (bit_vector);
    assert(((byte as u32) | ((0u8 as u32) << 8) | ((0u8 as u32) << 16) | ((0u8 as u32) << 24))
        == byte as u32) by (bit_vector);
}

/// The layout of the journal of a digest: 128 bytes, every fourth of them a
/// byte of the digest and all others zero.
pub proof fn lemma_journal_layout(digest: Seq<u8>)
    requires
        digest.len() == 32,
    ensures
        journal_of(digest).len() == 128,
        forall|k: int|
            0 <= k < 128 ==> #[trigger] journal_of(digest)[k] == if k % 4 == 0 {
                digest[k / 4]
            } else {
                0
            },
{
    assert forall|k: int| 0 <= k < 128 implies #[trigger] journal_of(digest)[k] == if k % 4 == 0 {
        digest[k / 4]
    } else {
        0
    } by {
        lemma_byte_word(digest[k / 4]);
    }
}

/// What is written for a digest is read back as that digest.
pub proof fn lemma_journal_round_trip(digest: Seq<u8>)
    requires
        digest.len() == 32,
    ensures
        journal_digest(journal_of(digest)) == Some(digest),
{
    let journal = journal_of(digest);
    lemma_journal_layout(digest);
    let words = words_of(journal);
    assert(words.len() == 32);
    assert forall|i: int| 0 <= i < 32 implies words[i] == digest[i] as u32 by {
        lemma_byte_word(digest[i]);
        assert(journal[4 * i] == digest[i]);
        assert(journal[4 * i + 1] == 0);
        assert(journal[4 * i + 2] == 0);
        assert(journal[4 * i + 3] == 0);
    }
    assert(words_carry_digest(words));
    assert(digest_carried(words) =~= digest);
}

/// Among the journals of 128 bytes only one holds a given digest: changing
/// any byte of it changes the digest that is read, or leaves none to read.
pub proof fn lemma_journal_unique(journal: Seq<u8>, digest: Seq<u8>)
    requires
        journal.len() == 128,
        journal_digest(journal) == Some(digest),
    ensures
        journal == journal_of(digest),
{
    let words = words_of(journal);
    assert(digest.len() == 32);
    lemma_journal_layout(digest);
    assert forall|k: int| 0 <= k < 128 implies journal[k] == journal_of(digest)[k] by {
        let i = k / 4;
        lemma_le_word_bytes(journal[4 * i], journal[4 * i + 1], journal[4 * i + 2], journal[4 * i + 3]);
        assert(words[i] == word_at(journal, i));
        assert(words[i] <= 0xff);
        assert(digest[i] == words[i] as u8);
        lemma_byte_word(journal[4 * i]);
    }
    assert(journal =~= journal_of(digest));
}

} // verus!
