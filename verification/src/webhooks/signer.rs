//! HMAC-SHA256 signatures of webhook payloads, compared in constant time.
use vstd::prelude::*;
use crate::crypto::{hmac_sha256, hmac_sha256_tag};
use crate::encoding::{encode_hex, hex_lower};

verus! {

/// The signature of `payload` under `secret`: the lowercase hexadecimal text
/// of HMAC-SHA256 keyed by the UTF-8 bytes of the secret.
pub open spec fn payload_signature(payload: Seq<u8>, secret: Seq<char>) -> Seq<char> {
    hex_lower(hmac_sha256(vstd::utf8::encode_utf8(secret), payload))
}

/// A signature is valid for a payload and a secret when it is their
/// signature.
pub open spec fn signature_valid(payload: Seq<u8>, secret: Seq<char>, signature: Seq<char>) -> bool {
    signature == payload_signature(payload, secret)
}

/// A payload's signature verifies under the secret that made it, and no
/// other text does.
pub proof fn law_signature_round_trip(payload: Seq<u8>, secret: Seq<char>, other: Seq<char>)
    ensures
        signature_valid(payload, secret, payload_signature(payload, secret)),
        other != payload_signature(payload, secret) ==> !signature_valid(payload, secret, other),
{
}

/// Sign a webhook payload using HMAC-SHA256.
pub fn sign_payload(payload: &[u8], secret: &str) -> (signature: String)
    ensures
        signature@ == payload_signature(payload@, secret@),
{
    let tag = hmac_sha256_tag(secret.as_bytes(), payload);
    encode_hex(tag.as_slice())
}

/// Verify a webhook signature: true exactly when `signature` is the signature
/// of `payload` under `secret`.
pub fn verify_signature(payload: &[u8], secret: &str, signature: &str) -> (valid: bool)
    ensures
        valid == signature_valid(payload@, secret@, signature@),
{
    let expected = sign_payload(payload, secret);
    let valid = constant_time_eq(expected.as_str().as_bytes(), signature.as_bytes());
    proof {
        vstd::utf8::encode_utf8_decode_utf8(expected@);
        vstd::utf8::encode_utf8_decode_utf8(signature@);
    }
    valid
}

/// Compares two byte strings without stopping at the first difference: every
/// byte pair is folded into an accumulator. True exactly when they are equal.
pub fn constant_time_eq(a: &[u8], b: &[u8]) -> (equal: bool)
    ensures
        equal == (a@ == b@),
{
    if a.len() != b.len() {
        return false;
    }
    let mut result: u8 = 0;
    for i in 0..a.len()
        invariant
            a@.len() == b@.len(),
            (result == 0) <==> (forall|j: int| 0 <= j < i ==> a@[j] == b@[j]),
    {
        let x = a[i];
        let y = b[i];
        assert(((result | (x ^ y)) == 0u8) <==> (result == 0u8 && x == y)) by (bit_vector);
        result = result | (x ^ y);
    }
    proof {
        if result == 0 {
            assert(a@ =~= b@);
        }
    }
    result == 0
}

} // verus!
