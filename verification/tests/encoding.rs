use transaction_service::api::errors::ApiError;
use transaction_service::api::handlers::transactions::idempotency_key;
use transaction_service::encoding::decimal_string;

fn not_found_message(e: ApiError) -> String {
    match e {
        ApiError::NotFound(m) => m,
        _ => panic!("expected not found"),
    }
}

#[test]
fn decimal_text_of_integers() {
    assert_eq!(decimal_string(0), "0");
    assert_eq!(decimal_string(7), "7");
    assert_eq!(decimal_string(-5), "-5");
    assert_eq!(decimal_string(1234567890), "1234567890");
    assert_eq!(decimal_string(i64::MAX), i64::MAX.to_string());
    assert_eq!(decimal_string(i64::MIN), i64::MIN.to_string());
}

#[test]
fn uuid_text_is_hyphenated_lowercase() {
    let id: u128 = 0x550e8400_e29b_41d4_a716_446655440000;
    assert_eq!(
        not_found_message(ApiError::account_not_found(id)),
        "Account 550e8400-e29b-41d4-a716-446655440000 not found"
    );
    assert_eq!(
        not_found_message(ApiError::account_not_found(0)),
        "Account 00000000-0000-0000-0000-000000000000 not found"
    );
    assert_eq!(
        not_found_message(ApiError::account_not_found(u128::MAX)),
        "Account ffffffff-ffff-ffff-ffff-ffffffffffff not found"
    );
}

#[test]
fn uuid_parsing() {
    assert_eq!(
        idempotency_key(Some("550e8400-e29b-41d4-a716-446655440000")),
        Some(0x550e8400_e29b_41d4_a716_446655440000)
    );
    assert_eq!(
        idempotency_key(Some("550E8400E29B41D4A716446655440000")),
        Some(0x550e8400_e29b_41d4_a716_446655440000)
    );
    assert_eq!(idempotency_key(Some("not-a-uuid")), None);
    assert_eq!(idempotency_key(Some("")), None);
}
