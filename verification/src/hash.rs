//! SHA-256 digests: the only public derivative of a secret.

use vstd::prelude::*;

verus! {

/// The SHA-256 digest of `data`, as computed by the `sha2` crate.
///
/// The verifier knows nothing of this function beyond its being a function:
/// equal inputs give equal digests.
pub uninterp spec fn sha256_of(data: Seq<u8>) -> Seq<u8>;

/// Calls `sha2::Sha256::digest`. Trusted: the returned array holds the
/// SHA-256 digest of `data`, which depends on the bytes of `data` alone.
#[verifier::external_body]
fn sha256(data: &[u8]) -> (out: [u8; 32])
    ensures
        out@ == sha256_of(data@),
{
    <sha2::Sha256 as sha2::Digest>::digest(data).into()
}

/// Hashes a secret to the digest that may be disclosed in its place.
pub fn digest_of(secret: &[u8]) -> (digest: [u8; 32])
    ensures
        digest@ == sha256_of(secret@),
{
    sha256(secret)
}

/// Compares two digests byte for byte.
pub fn digests_equal(left: &[u8; 32], right: &[u8; 32]) -> (same: bool)
    ensures
        same == (left@ == right@),
{
    let mut i: usize = 0;
    while i < 32
        invariant
            i <= 32,
            forall|k: int| 0 <= k < i ==> left@[k] == right@[k],
        decreases 32 - i,
    {
        if left[i] != right[i] {
            return false;
        }
        i += 1;
    }
    assert(left@ =~= right@);
    true
}

} // verus!
