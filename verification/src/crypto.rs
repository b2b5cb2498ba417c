//! Trusted bindings to the cryptographic primitives of outside crates.
//!
//! Nothing here is proved: each function's contract names the result of the
//! outside call, and the rest of the crate is verified against those names.

use vstd::prelude::*;
use base64::Engine;
use rsa::pkcs1::DecodeRsaPublicKey;
use rsa::pkcs8::DecodePublicKey;
use sha2::Digest;

verus! {

/// SHA-256 digest of the UTF-8 encoding of a text.
pub uninterp spec fn sha256_utf8(s: Seq<char>) -> Seq<u8>;

/// Standard padded base64 text of a byte string.
pub uninterp spec fn b64_of(bytes: Seq<u8>) -> Seq<char>;

/// What standard base64 decoding recovers from a text: the byte string it
/// encodes, or `None` when the text is not valid base64.
pub uninterp spec fn b64_decoded(s: Seq<char>) -> Option<Seq<u8>>;

/// Whether `sig_b64` holds a valid RSASSA-PKCS1-v1_5 signature with SHA-256
/// over `payload`, by the RSA public key written in PEM form in `key_pem`.
pub uninterp spec fn rsa_sig_valid(
    key_pem: Seq<char>,
    payload: Seq<char>,
    sig_b64: Seq<char>,
) -> bool;

/// Relies on sha2's `Sha256::digest`: the 32-byte SHA-256 digest of the
/// argument's bytes, a function of those bytes alone.
#[verifier::external_body]
pub fn hash(data: &str) -> (r: Vec<u8>)
    ensures
        r@ == sha256_utf8(data@),
        r@.len() == 32,
{
    sha2::Sha256::digest(data.as_bytes()).to_vec()
}

/// Relies on base64's `STANDARD` engine: `encode` writes the padded base64
/// text of the bytes, and `decode` reads that text back to exactly them.
#[verifier::external_body]
pub(crate) fn b64_encode(data: &[u8]) -> (r: String)
    ensures
        r@ == b64_of(data@),
        b64_decoded(r@) == Some(data@),
{
    base64::engine::general_purpose::STANDARD.encode(data)
}

/// Relies on base64's `STANDARD` engine `decode`: recovers the encoded bytes
/// of a valid base64 text and rejects anything else.
#[verifier::external_body]
pub(crate) fn b64_decode(data: &str) -> (r: Option<Vec<u8>>)
    ensures
        match r {
            Some(v) => b64_decoded(data@) == Some(v@),
            None => b64_decoded(data@) is None,
        },
{
    match base64::engine::general_purpose::STANDARD.decode(data) {
        Ok(v) => Some(v),
        Err(_) => None,
    }
}

/// The provenance check. Relies on the rsa crate: the public key is read
/// with `RsaPublicKey::from_public_key_pem` (SPKI), falling back to
/// `from_pkcs1_pem`; the signature text is base64-decoded; and
/// `RsaPublicKey::verify` with `Pkcs1v15Sign::new::<Sha256>` checks it as an
/// RSASSA-PKCS1-v1_5 signature over the payload's SHA-256 digest. The
/// verdict is a function of the three texts alone.
#[verifier::external_body]
pub fn verify_signature(commitment: &str, signed_sensor_data: &str, sensorkey: &str) -> (r: bool)
    ensures
        r == rsa_sig_valid(sensorkey@, commitment@, signed_sensor_data@),
{
    let key = match rsa::RsaPublicKey::from_public_key_pem(sensorkey)
        .or_else(|_| rsa::RsaPublicKey::from_pkcs1_pem(sensorkey)) {
        Ok(k) => k,
        Err(_) => return false,
    };
    let sig = match base64::engine::general_purpose::STANDARD.decode(signed_sensor_data) {
        Ok(s) => s,
        Err(_) => return false,
    };
    let digest = sha2::Sha256::digest(commitment.as_bytes());
    key.verify(rsa::pkcs1v15::Pkcs1v15Sign::new::<sha2::Sha256>(), &digest, &sig).is_ok()
}

} // verus!
