use transaction_service::webhooks::signer::{constant_time_eq, sign_payload, verify_signature};

#[test]
fn test_sign_and_verify() {
    let payload = b"test payload";
    let secret = "my-secret-key";

    let signature = sign_payload(payload, secret);
    assert!(verify_signature(payload, secret, &signature));
    assert!(!verify_signature(payload, "wrong-secret", &signature));
    assert!(!verify_signature(b"wrong payload", secret, &signature));
}

#[test]
fn signature_is_lowercase_hex_of_hmac_sha256() {
    // RFC 4231 test case 2: key "Jefe", data "what do ya want for nothing?".
    let signature = sign_payload(b"what do ya want for nothing?", "Jefe");
    assert_eq!(
        signature,
        "5bdcc146bf60754e6a042426089575c75a003f089d2739839dec58b964ec3843"
    );
}

#[test]
fn signature_with_empty_secret_and_payload() {
    let signature = sign_payload(b"", "");
    assert_eq!(signature.len(), 64);
    assert!(verify_signature(b"", "", &signature));
}

#[test]
fn verify_rejects_uppercase_and_truncated_signatures() {
    let signature = sign_payload(b"payload", "secret");
    assert!(!verify_signature(b"payload", "secret", &signature.to_uppercase()));
    assert!(!verify_signature(b"payload", "secret", &signature[..63]));
    assert!(!verify_signature(b"payload", "secret", ""));
}

#[test]
fn constant_time_eq_compares_whole_strings() {
    assert!(constant_time_eq(b"abc", b"abc"));
    assert!(!constant_time_eq(b"abc", b"abd"));
    assert!(!constant_time_eq(b"abc", b"ab"));
    assert!(constant_time_eq(b"", b""));
}
