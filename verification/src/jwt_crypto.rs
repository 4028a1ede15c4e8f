//! Trusted bridge to the JWT library's HMAC signing primitives.

use vstd::prelude::*;

verus! {

/// The base64url characters of the HMAC-SHA256 signature that the JWT
/// library computes over a message with a secret. A function of its
/// arguments alone.
pub uninterp spec fn hmac_sig_of(message: Seq<u8>, secret: Seq<u8>) -> Seq<char>;

/// Relies on `jsonwebtoken::crypto::sign` with `Algorithm::HS256`, whose
/// source signs with HMAC-SHA256 and base64url-encodes the digest, and for
/// HS256 always returns `Ok`. A failure would surface as its message.
#[verifier::external_body]
pub fn sign_hs256(message: &[u8], secret: &[u8]) -> (r: Result<String, String>)
    ensures
        r is Ok,
        r matches Ok(sig) ==> sig@ == hmac_sig_of(message@, secret@),
{
    jsonwebtoken::crypto::sign(
        message,
        &jsonwebtoken::EncodingKey::from_secret(secret),
        jsonwebtoken::Algorithm::HS256,
    ).map_err(|e| format!("{}", e))
}

/// Relies on `jsonwebtoken::crypto::verify` with `Algorithm::HS256`, whose
/// source re-signs the message with the secret and compares the result with
/// the given signature in constant time; for HS256 it always returns `Ok`.
#[verifier::external_body]
pub fn verify_hs256(sig: &str, message: &[u8], secret: &[u8]) -> (r: Result<bool, String>)
    ensures
        r is Ok,
        r matches Ok(b) ==> b == (sig@ == hmac_sig_of(message@, secret@)),
{
    jsonwebtoken::crypto::verify(
        sig,
        message,
        &jsonwebtoken::DecodingKey::from_secret(secret),
        jsonwebtoken::Algorithm::HS256,
    ).map_err(|e| format!("{}", e))
}

} // verus!
