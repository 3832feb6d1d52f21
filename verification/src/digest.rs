//! Cryptographic digests used by the request signer.
//!
//! The two hash primitives are supplied by outside crates and are trusted;
//! their outputs are named by uninterpreted spec functions, since stating the
//! algorithms themselves would take pages and could not be checked here.

use vstd::prelude::*;

verus! {

use hmac::Mac;
use sha2::Digest;

/// The SHA-256 digest of a byte string: 32 bytes, a function of the data alone.
pub uninterp spec fn sha256_of(data: Seq<u8>) -> Seq<u8>;

/// The HMAC-SHA-256 of a byte string under a key: 32 bytes, a function of the
/// key and the data alone.
pub uninterp spec fn hmac_sha256_of(key: Seq<u8>, data: Seq<u8>) -> Seq<u8>;

/// Relies on sha2's `Sha256::digest`: the SHA-256 digest, always 32 bytes,
/// depending on the input bytes alone.
#[verifier::external_body]
pub fn sha256(data: &[u8]) -> (r: Vec<u8>)
    ensures
        r@ == sha256_of(data@),
        r@.len() == 32,
{
    sha2::Sha256::digest(data).to_vec()
}

/// Relies on hmac's `Hmac::<Sha256>::new_from_slice`, `update` and
/// `finalize`: the HMAC-SHA-256 tag, always 32 bytes, depending on the key
/// and message bytes alone. `new_from_slice` accepts keys of any length for
/// HMAC, so the `expect` cannot fire.
#[verifier::external_body]
pub fn hmac_sha256(key: &[u8], data: &[u8]) -> (r: Vec<u8>)
    ensures
        r@ == hmac_sha256_of(key@, data@),
        r@.len() == 32,
{
    let mut mac = <hmac::Hmac<sha2::Sha256> as Mac>::new_from_slice(key)
        .expect("HMAC accepts keys of any length");
    mac.update(data);
    mac.finalize().into_bytes().to_vec()
}

} // verus!
