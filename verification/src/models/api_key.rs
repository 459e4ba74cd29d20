//! API keys: issued at random, stored only as their SHA-256 digest.
use vstd::prelude::*;
use vstd::string::*;
use crate::crypto::{random_bytes, sha256, sha256_digest};
use crate::encoding::{encode_hex, hex_lower};

verus! {

/// The stored digest of an API key: the lowercase hexadecimal text of the
/// SHA-256 digest of its UTF-8 bytes.
pub open spec fn key_digest(key: Seq<char>) -> Seq<char> {
    hex_lower(sha256(vstd::utf8::encode_utf8(key)))
}

/// The text every issued key starts with.
pub open spec fn live_prefix() -> Seq<char> {
    seq!['s', 'k', '_', 'l', 'i', 'v', 'e', '_']
}

/// A business's API key, as stored.
#[derive(Debug, Clone)]
pub struct ApiKey {
    pub id: u128,
    pub key_hash: String,
    pub key_prefix: String,
    pub business_name: String,
    pub is_active: bool,
    pub created_at: i64,
    pub updated_at: i64,
}

/// A request to issue a key.
#[derive(Debug)]
pub struct CreateApiKey {
    pub business_name: String,
}

impl ApiKey {
    /// Generate a new API key and return (raw_key, hashed_key, prefix): the
    /// key is "sk_live_" followed by the hexadecimal text of 32 random
    /// bytes; the hash is its digest; the prefix is its first 8 characters,
    /// "sk_live_".
    pub fn generate_key() -> (generated: (String, String, String))
        ensures
            exists|bytes: Seq<u8>| bytes.len() == 32 && generated.0@ == live_prefix() + hex_lower(bytes),
            generated.1@ == key_digest(generated.0@),
            generated.2@ == generated.0@.take(8),
            generated.2@ == live_prefix(),
    {
        let key_bytes = random_bytes();
        let hex = encode_hex(key_bytes.as_slice());
        let mut raw_key = String::new();
        crate::encoding::push_char(&mut raw_key, 's');
        crate::encoding::push_char(&mut raw_key, 'k');
        crate::encoding::push_char(&mut raw_key, '_');
        crate::encoding::push_char(&mut raw_key, 'l');
        crate::encoding::push_char(&mut raw_key, 'i');
        crate::encoding::push_char(&mut raw_key, 'v');
        crate::encoding::push_char(&mut raw_key, 'e');
        crate::encoding::push_char(&mut raw_key, '_');
        assert(raw_key@ =~= live_prefix());
        raw_key.append(hex.as_str());
        assert(raw_key@.take(8) =~= live_prefix());
        let prefix = String::from_str(raw_key.as_str().substring_char(0, 8));
        let hash = Self::hash_key(raw_key.as_str());
        assert(key_bytes@.len() == 32);
        (raw_key, hash, prefix)
    }

    /// Hash an API key using SHA-256
    pub fn hash_key(key: &str) -> (hash: String)
        ensures
            hash@ == key_digest(key@),
    {
        let digest = sha256_digest(key.as_bytes());
        encode_hex(digest.as_slice())
    }

    /// Verify if a given key matches this API key's hash
    pub fn verify_key(&self, key: &str) -> (matches: bool)
        ensures
            matches == (key_digest(key@) == self.key_hash@),
    {
        Self::hash_key(key) == self.key_hash
    }
}

/// An API key as listed: without its hash.
#[derive(Debug)]
pub struct ApiKeyResponse {
    pub id: u128,
    pub key_prefix: String,
    pub business_name: String,
    pub is_active: bool,
    pub created_at: i64,
}

impl ApiKeyResponse {
    /// The listed view of a key: every field but the hash and the update
    /// time.
    pub fn from(key: ApiKey) -> (response: ApiKeyResponse)
        ensures
            response == (ApiKeyResponse {
                id: key.id,
                key_prefix: key.key_prefix,
                business_name: key.business_name,
                is_active: key.is_active,
                created_at: key.created_at,
            }),
    {
        ApiKeyResponse {
            id: key.id,
            key_prefix: key.key_prefix,
            business_name: key.business_name,
            is_active: key.is_active,
            created_at: key.created_at,
        }
    }
}

/// A freshly issued key, with its text: the only time the text is shown.
#[derive(Debug)]
pub struct ApiKeyWithSecret {
    pub id: u128,
    pub key: String,
    pub key_prefix: String,
    pub business_name: String,
    pub created_at: i64,
}

} // verus!
