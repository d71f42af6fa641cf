//! The one hash primitive everything else is built on: SHA-256, reached
//! through a single trusted wrapper around the `sha2` crate.

use vstd::prelude::*;

verus! {

/// The SHA-256 digest of `data`. The digest is far too intricate to state
/// here; contracts only rely on it being a pure function of the input bytes.
pub uninterp spec fn sha256_of(data: Seq<u8>) -> Seq<u8>;

/// Relies on `sha2::Sha256`: the digest is 32 bytes and depends on the
/// input bytes alone.
#[verifier::external_body]
pub(crate) fn sha256_digest(data: &[u8]) -> (r: [u8; 32])
    ensures
        r@ == sha256_of(data@),
{
    let d = <sha2::Sha256 as sha2::Digest>::digest(data);
    let mut r = [0u8; 32];
    r.copy_from_slice(&d);
    r
}

} // verus!
