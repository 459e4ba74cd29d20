use transaction_service::api::errors::ApiError;
use transaction_service::api::handlers::accounts::{default_limit, PaginationParams};
use transaction_service::api::handlers::transactions::{check_request, creation_reply, idempotency_key};
use transaction_service::api::handlers::webhooks::{deletion_reply, WebhookWithSecretResponse};
use transaction_service::api::middleware::auth::{extract_api_key_header, ApiKeyAuth, AuthRejection};
use transaction_service::models::api_key::ApiKey;
use transaction_service::models::transaction::{CreateTransaction, Transaction, TransactionStatus, TransactionType};
use transaction_service::models::webhook::Webhook;
use transaction_service::services::transaction_service::TransactionError;

fn parts(e: ApiError) -> (u16, String, String) {
    let (status, body) = e.into_response();
    assert!(body.error.details.is_none());
    (status, body.error.code, body.error.message)
}

fn tx() -> Transaction {
    Transaction {
        id: 9,
        idempotency_key: Some(3),
        api_key_id: 1,
        transaction_type: TransactionType::Debit,
        source_account_id: Some(2),
        destination_account_id: None,
        amount_cents: 100,
        status: TransactionStatus::Completed,
        metadata: "null".to_string(),
        error_message: None,
        created_at: 0,
        updated_at: 0,
    }
}

#[test]
fn error_statuses_codes_and_messages() {
    assert_eq!(parts(ApiError::Unauthorized), (401, "unauthorized".into(), "Authentication required".into()));
    assert_eq!(parts(ApiError::InvalidApiKey), (401, "invalid_api_key".into(), "Invalid API key".into()));
    assert_eq!(parts(ApiError::Forbidden), (403, "forbidden".into(), "Access forbidden".into()));
    assert_eq!(parts(ApiError::NotFound("gone".into())), (404, "not_found".into(), "gone".into()));
    assert_eq!(parts(ApiError::Validation("bad".into())), (400, "validation_error".into(), "bad".into()));
    assert_eq!(parts(ApiError::Conflict("dup".into())), (409, "conflict".into(), "dup".into()));
    assert_eq!(
        parts(ApiError::RateLimitExceeded),
        (429, "rate_limit_exceeded".into(), "Rate limit exceeded".into())
    );
    assert_eq!(
        parts(ApiError::InsufficientBalance("low".into())),
        (422, "insufficient_balance".into(), "low".into())
    );
    assert_eq!(
        parts(ApiError::Internal("secret detail".into())),
        (500, "internal_error".into(), "An internal error occurred".into())
    );
    assert_eq!(
        parts(ApiError::Database("secret detail".into())),
        (500, "internal_error".into(), "A database error occurred".into())
    );
}

#[test]
fn error_descriptions() {
    assert_eq!(ApiError::NotFound("Account x not found".into()).describe(), "Resource not found: Account x not found");
    assert_eq!(ApiError::Validation("v".into()).describe(), "Validation error: v");
    assert_eq!(ApiError::Conflict("c".into()).describe(), "Conflict: c");
    assert_eq!(ApiError::InsufficientBalance("i".into()).describe(), "Insufficient balance: i");
    assert_eq!(ApiError::Internal("i".into()).describe(), "Internal server error");
    assert_eq!(ApiError::Database("d".into()).describe(), "Database error");
    assert_eq!(ApiError::Unauthorized.status_code(), 401);
}

#[test]
fn transaction_errors_become_api_errors() {
    let id: u128 = 0x550e8400_e29b_41d4_a716_446655440001;
    assert_eq!(
        parts(ApiError::from(TransactionError::AccountNotFound(id))),
        (404, "not_found".into(), "Account 550e8400-e29b-41d4-a716-446655440001 not found".into())
    );
    assert_eq!(
        parts(ApiError::from(TransactionError::InsufficientBalance(id, 500, 1000))),
        (
            422,
            "insufficient_balance".into(),
            "Account 550e8400-e29b-41d4-a716-446655440001 has 500 cents, but 1000 cents required".into()
        )
    );
    assert_eq!(parts(ApiError::from(TransactionError::AccountAccessDenied)).0, 403);
    assert_eq!(
        parts(ApiError::from(TransactionError::DuplicateIdempotencyKey(tx()))),
        (409, "conflict".into(), "Duplicate idempotency key".into())
    );
    assert_eq!(parts(ApiError::from(TransactionError::Database("e".into()))).1, "internal_error");
}

#[test]
fn not_found_messages() {
    let id: u128 = 0x660e8400_e29b_41d4_a716_446655440002;
    assert_eq!(parts(ApiError::transaction_not_found(id)).2, "Transaction 660e8400-e29b-41d4-a716-446655440002 not found");
    assert_eq!(parts(ApiError::webhook_not_found(id)).2, "Webhook 660e8400-e29b-41d4-a716-446655440002 not found");
    assert_eq!(parts(ApiError::account_not_found(id)).2, "Account 660e8400-e29b-41d4-a716-446655440002 not found");
}

#[test]
fn pagination_is_bounded() {
    assert_eq!(default_limit(), 20);
    assert_eq!(PaginationParams { limit: 20, offset: 0 }.bounded(), (20, 0));
    assert_eq!(PaginationParams { limit: 500, offset: 10 }.bounded(), (100, 10));
    assert_eq!(PaginationParams { limit: 0, offset: -3 }.bounded(), (1, 0));
    assert_eq!(PaginationParams { limit: -7, offset: 5 }.bounded(), (1, 5));
    assert_eq!(PaginationParams { limit: 100, offset: i64::MAX }.bounded(), (100, i64::MAX));
}

#[test]
fn idempotency_key_header() {
    assert_eq!(
        idempotency_key(Some("770e8400-e29b-41d4-a716-446655440003")),
        Some(0x770e8400_e29b_41d4_a716_446655440003)
    );
    assert_eq!(idempotency_key(Some("nope")), None);
    assert_eq!(idempotency_key(None), None);
}

#[test]
fn request_checks() {
    let ok = CreateTransaction {
        transaction_type: TransactionType::Credit,
        source_account_id: None,
        destination_account_id: Some(1),
        amount_cents: 10,
        metadata: "null".into(),
    };
    assert!(check_request(&ok).is_ok());
    let zero = CreateTransaction { amount_cents: 0, ..ok };
    match check_request(&zero) {
        Err(ApiError::Validation(m)) => assert_eq!(m, "amount_cents: Amount must be greater than 0"),
        _ => panic!("expected a validation error"),
    }
    let same = CreateTransaction {
        transaction_type: TransactionType::Transfer,
        source_account_id: Some(1),
        destination_account_id: Some(1),
        amount_cents: 10,
        metadata: "null".into(),
    };
    match check_request(&same) {
        Err(ApiError::Validation(m)) => assert_eq!(m, "source_account_id and destination_account_id cannot be the same"),
        _ => panic!("expected a validation error"),
    }
}

#[test]
fn creation_replies() {
    let created = creation_reply(Ok(tx())).ok().unwrap();
    assert_eq!((created.status, created.queue_webhooks, created.transaction.id), (201, true, 9));
    let replayed = creation_reply(Err(TransactionError::DuplicateIdempotencyKey(tx()))).ok().unwrap();
    assert_eq!((replayed.status, replayed.queue_webhooks, replayed.transaction.id), (200, false, 9));
    match creation_reply(Err(TransactionError::AccountAccessDenied)) {
        Err(ApiError::Forbidden) => {}
        _ => panic!("expected forbidden"),
    }
}

#[test]
fn deletion_replies() {
    assert!(matches!(deletion_reply(true, 5), Ok(204)));
    match deletion_reply(false, 5) {
        Err(ApiError::NotFound(m)) => assert_eq!(m, "Webhook 00000000-0000-0000-0000-000000000005 not found"),
        _ => panic!("expected not found"),
    }
}

#[test]
fn registered_webhook_shows_its_secret() {
    let hook = Webhook {
        id: 4,
        api_key_id: 2,
        url: "https://example.com".to_string(),
        secret: "abc123".to_string(),
        events: vec!["transaction.completed".to_string()],
        is_active: true,
        created_at: 1,
        updated_at: 2,
    };
    let r = WebhookWithSecretResponse::from(hook);
    assert_eq!(r.secret, "abc123");
    assert_eq!(r.events, vec!["transaction.completed".to_string()]);
}

#[test]
fn bearer_header_extraction() {
    assert_eq!(extract_api_key_header(Some("Bearer sk_live_abc")), Some("sk_live_abc".to_string()));
    assert_eq!(extract_api_key_header(Some("Bearer ")), Some(String::new()));
    assert_eq!(extract_api_key_header(Some("Basic abc")), None);
    assert_eq!(extract_api_key_header(Some("bearer abc")), None);
    assert_eq!(extract_api_key_header(Some("Bearer")), None);
    assert_eq!(extract_api_key_header(None), None);
}

#[test]
fn authentication_steps() {
    assert!(matches!(ApiKeyAuth::key_hash_for(None), Err(AuthRejection::MissingHeader)));
    assert!(matches!(ApiKeyAuth::key_hash_for(Some("Token abc")), Err(AuthRejection::InvalidScheme)));
    assert_eq!(ApiKeyAuth::key_hash_for(Some("Bearer abc")).ok().unwrap(), ApiKey::hash_key("abc"));

    assert!(matches!(ApiKeyAuth::from_lookup(Err("down".into())), Err(AuthRejection::LookupFailed)));
    assert!(matches!(ApiKeyAuth::from_lookup(Ok(None)), Err(AuthRejection::InvalidKey)));
    let key = ApiKey {
        id: 8,
        key_hash: "h".into(),
        key_prefix: "sk_live_".into(),
        business_name: "B".into(),
        is_active: true,
        created_at: 0,
        updated_at: 0,
    };
    assert_eq!(ApiKeyAuth::from_lookup(Ok(Some(key))).ok().unwrap().api_key.id, 8);
}

#[test]
fn authentication_refusals() {
    let cases = [
        (AuthRejection::PoolMissing, 500, "internal_error", "Database pool not configured"),
        (AuthRejection::MissingHeader, 401, "unauthorized", "Missing Authorization header"),
        (AuthRejection::InvalidScheme, 401, "unauthorized", "Authorization header must use Bearer scheme"),
        (AuthRejection::LookupFailed, 500, "internal_error", "Authentication failed"),
        (AuthRejection::InvalidKey, 401, "invalid_api_key", "Invalid or inactive API key"),
    ];
    for (rejection, status, code, message) in cases {
        let (s, body) = rejection.into_response();
        assert_eq!(s, status);
        assert_eq!(body.error.code, code);
        assert_eq!(body.error.message, message);
    }
}

#[test]
fn creation_failures_get_their_api_errors() {
    let status = |e: TransactionError| match creation_reply(Err(e)) {
        Err(error) => error.into_response().0,
        Ok(_) => panic!("expected an error"),
    };
    assert_eq!(status(TransactionError::AccountNotFound(1)), 404);
    assert_eq!(status(TransactionError::AccountAccessDenied), 403);
    assert_eq!(status(TransactionError::InsufficientBalance(1, 5, 10)), 422);
    assert_eq!(status(TransactionError::Database("down".into())), 500);
    match creation_reply(Err(TransactionError::AccountNotFound(1))) {
        Err(ApiError::NotFound(m)) => assert_eq!(m, "Account 00000000-0000-0000-0000-000000000001 not found"),
        _ => panic!("expected not found"),
    }
}
