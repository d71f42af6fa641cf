//! The textual rendering of encoded envelopes: unpadded URL-safe base64,
//! reached through trusted wrappers around the `base64` crate.

use vstd::prelude::*;
use base64::Engine;

verus! {

/// The unpadded URL-safe base64 rendering of a byte string. Stating the
/// alphabet here would restate the crate; contracts rely on the rendering
/// being a pure function of the bytes that the parser inverts.
pub uninterp spec fn b64url_of(bytes: Seq<u8>) -> Seq<char>;

/// What parsing a candidate rendering yields: the bytes it spells, or
/// nothing when it is not valid unpadded URL-safe base64.
pub uninterp spec fn b64url_parse(s: Seq<char>) -> Option<Seq<u8>>;

/// Relies on base64's `URL_SAFE_NO_PAD` engine: encoding is a pure
/// function of the bytes, and decoding with the same engine inverts it.
#[verifier::external_body]
pub fn b64url_encode(bytes: &[u8]) -> (r: String)
    ensures
        r@ == b64url_of(bytes@),
        b64url_parse(r@) == Some(bytes@),
{
    base64::engine::general_purpose::URL_SAFE_NO_PAD.encode(bytes)
}

/// Relies on base64's `URL_SAFE_NO_PAD` engine: decoding depends on the
/// characters alone, and rejects what the engine cannot parse.
#[verifier::external_body]
pub fn b64url_decode(s: &str) -> (r: Result<Vec<u8>, String>)
    ensures
        (r matches Ok(v) ==> b64url_parse(s@) == Some(v@)),
        (r is Err ==> b64url_parse(s@) is None),
{
    base64::engine::general_purpose::URL_SAFE_NO_PAD.decode(s.as_bytes()).map_err(
        |e| format!("b64url decode: {}", e),
    )
}

} // verus!
