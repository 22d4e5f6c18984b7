//! Trusted wrappers around the SHA-256 and HMAC-SHA-256 primitives.
//!
//! The digests themselves are not restated here: each result is given
//! a name, a function of the wrapper's arguments alone, and the signer
//! reasons over those names.  Both primitives are deterministic
//! byte-to-byte functions, so the names are sound.

use vstd::prelude::*;

verus! {

/// The SHA-256 digest of a byte string.
pub uninterp spec fn sha256_of(data: Seq<u8>) -> Seq<u8>;

/// The HMAC-SHA-256 tag of a message under a key.
pub uninterp spec fn hmac_sha256_of(key: Seq<u8>, data: Seq<u8>) -> Seq<u8>;

/// Relies on sha2's `Sha256`: the digest depends on the input bytes
/// alone and is 32 bytes long.
#[verifier::external_body]
pub fn sha256(data: &Vec<u8>) -> (r: Vec<u8>)
    ensures
        r@ == sha256_of(data@),
        r@.len() == 32,
{
    let d = <sha2::Sha256 as sha2::Digest>::digest(data.as_slice());
    d.to_vec()
}

/// Relies on hmac's `Hmac<Sha256>`: the tag depends on the key and
/// message bytes alone and is 32 bytes long; HMAC accepts keys of any
/// length, so construction cannot fail.
#[verifier::external_body]
pub fn hmac_sha256(key: &Vec<u8>, data: &Vec<u8>) -> (r: Vec<u8>)
    ensures
        r@ == hmac_sha256_of(key@, data@),
        r@.len() == 32,
{
    let mut mac = <hmac::Hmac<sha2::Sha256> as hmac::KeyInit>::new_from_slice(key.as_slice()).expect(
        "HMAC accepts keys of any length",
    );
    hmac::Mac::update(&mut mac, data.as_slice());
    hmac::Mac::finalize(mac).into_bytes().to_vec()
}

} // verus!
