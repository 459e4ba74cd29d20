//! The cryptographic primitives the service relies on: SHA-256, HMAC-SHA256
//! and a source of random bytes.
use vstd::prelude::*;
use hmac::Mac;
use sha2::Digest;

verus! {

/// The SHA-256 digest of a byte string.
pub uninterp spec fn sha256(data: Seq<u8>) -> Seq<u8>;

/// The HMAC-SHA256 tag of `message` under `key`.
pub uninterp spec fn hmac_sha256(key: Seq<u8>, message: Seq<u8>) -> Seq<u8>;

/// `sha2::Sha256`: hashes `data` in one update and returns the finalized
/// digest. Claimed: the result is `sha256(data)` and is 32 bytes long.
#[verifier::external_body]
pub(crate) fn sha256_digest(data: &[u8]) -> (digest: Vec<u8>)
    ensures
        digest@ == sha256(data@),
        digest@.len() == 32,
{
    sha2::Sha256::digest(data).to_vec()
}

/// `hmac::Hmac<Sha256>`: keys the MAC with `key` (any length is accepted),
/// feeds `message` and returns the finalized tag. Claimed: the result is
/// `hmac_sha256(key, message)` and is 32 bytes long.
#[verifier::external_body]
pub(crate) fn hmac_sha256_tag(key: &[u8], message: &[u8]) -> (tag: Vec<u8>)
    ensures
        tag@ == hmac_sha256(key@, message@),
        tag@.len() == 32,
{
    let mut mac = <hmac::Hmac<sha2::Sha256> as Mac>::new_from_slice(key)
        .expect("HMAC can take key of any size");
    mac.update(message);
    mac.finalize().into_bytes().to_vec()
}

/// `rand::random::<[u8; 32]>()`: 32 bytes from the thread-local generator.
/// Nothing is claimed of their values.
#[verifier::external_body]
pub(crate) fn random_bytes() -> (bytes: [u8; 32]) {
    rand::random()
}

/// A random (version 4) UUID of the RFC 4122 variant, as its 128-bit value:
/// the version nibble, bits 76 to 79, is 4, and the two variant bits, 62
/// and 63, are `10`.
pub open spec fn is_random_uuid(id: u128) -> bool {
    &&& (id >> 76u128) & 15u128 == 4u128
    &&& (id >> 62u128) & 3u128 == 2u128
}

/// `uuid::Uuid::new_v4()`: a random version-4 UUID, as its 128-bit value.
/// Claimed: its version and variant bits are set as for every version-4
/// UUID; nothing is claimed of its random bits.
#[verifier::external_body]
pub(crate) fn new_uuid_v4() -> (id: u128)
    ensures
        is_random_uuid(id),
{
    uuid::Uuid::new_v4().as_u128()
}

} // verus!
