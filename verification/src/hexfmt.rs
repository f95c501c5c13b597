//! Digests as lower-case hexadecimal text.

use vstd::prelude::*;
use vstd::slice::slice_subrange;

verus! {

/// Number of leading bytes shown in the short form of a digest.
pub const FINGERPRINT_LEN: usize = 8;

/// The lower-case hexadecimal digit of a value below sixteen.
pub open spec fn hex_digit(nibble: u8) -> char {
    if nibble < 10 {
        (('0' as u8) + nibble) as char
    } else {
        (('a' as u8) + (nibble - 10) as u8) as char
    }
}

/// The hexadecimal text of a byte string: two digits for each byte, the
/// high half first.
pub open spec fn hex_text(bytes: Seq<u8>) -> Seq<char> {
    Seq::new(
        2 * bytes.len(),
        |k: int|
            if k % 2 == 0 {
                hex_digit(bytes[k / 2] / 16)
            } else {
                hex_digit(bytes[k / 2] % 16)
            },
    )
}

/// Calls `hex::encode`. Trusted: the string holds two lower-case
/// hexadecimal digits for each byte, in order, the high half first.
#[verifier::external_body]
fn hex_encode(bytes: &[u8]) -> (text: String)
    ensures
        text@ == hex_text(bytes@),
{
    hex::encode(bytes)
}

/// The whole digest in hexadecimal: sixty-four digits.
pub fn digest_hex(digest: &[u8; 32]) -> (text: String)
    ensures
        text@ == hex_text(digest@),
        text@.len() == 64,
{
    hex_encode(digest.as_slice())
}

/// The short form of a digest: its first eight bytes in hexadecimal.
pub fn digest_fingerprint(digest: &[u8; 32]) -> (text: String)
    ensures
        text@ == hex_text(digest@.subrange(0, 8)),
        text@.len() == 16,
        text@ == hex_text(digest@).subrange(0, 16),
{
    let head = slice_subrange(digest.as_slice(), 0, FINGERPRINT_LEN);
    let text = hex_encode(head);
    assert(hex_text(digest@.subrange(0, 8)) =~= hex_text(digest@).subrange(0, 16));
    text
}

} // verus!
