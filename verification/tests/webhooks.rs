use transaction_service::models::transaction::{Transaction, TransactionStatus, TransactionType};
use transaction_service::models::webhook::{Webhook, WebhookDelivery, WebhookDeliveryStatus};
use transaction_service::observability::telemetry::{init_telemetry, shutdown_telemetry};
use transaction_service::services::webhook_service::WebhookService;
use transaction_service::webhooks::dispatcher::{
    backoff, delivery_update, delivery_update_at, handle_failure, handle_failure_at, SendOutcome,
};

const SECOND: i64 = 1_000_000;

fn tx(status: TransactionStatus) -> Transaction {
    Transaction {
        id: 11,
        idempotency_key: None,
        api_key_id: 1,
        transaction_type: TransactionType::Transfer,
        source_account_id: Some(2),
        destination_account_id: Some(3),
        amount_cents: 5000,
        status,
        metadata: "{}".to_string(),
        error_message: None,
        created_at: 77,
        updated_at: 78,
    }
}

fn delivery() -> WebhookDelivery {
    WebhookDelivery {
        id: 1,
        webhook_id: 2,
        transaction_id: 11,
        status: WebhookDeliveryStatus::Pending,
        retry_count: 0,
        last_error: None,
        last_response_code: None,
        next_retry_at: None,
        created_at: 0,
        delivered_at: None,
    }
}

fn webhook() -> Webhook {
    Webhook {
        id: 2,
        api_key_id: 1,
        url: "https://example.com".to_string(),
        secret: "s".to_string(),
        events: vec![],
        is_active: true,
        created_at: 0,
        updated_at: 0,
    }
}

#[test]
fn documented_retry_delays() {
    assert_eq!(backoff(1), 2);
    assert_eq!(backoff(2), 4);
    assert_eq!(backoff(3), 8);
    assert_eq!(backoff(4), 16);
    assert_eq!(backoff(5), 32);
    assert_eq!(backoff(11), 2048);
    assert_eq!(backoff(12), 3600);
    assert_eq!(backoff(40), 3600);
}

#[test]
fn failures_are_retried_then_given_up() {
    let now = 1_000 * SECOND;
    for (retry_count, wait) in [(0, 2), (1, 4), (2, 8), (3, 16), (4, 32)] {
        let u = handle_failure_at(retry_count, Some(500), "HTTP 500".to_string(), 5, now);
        assert_eq!(u.status, WebhookDeliveryStatus::Pending);
        assert_eq!(u.next_retry_at, Some(now + wait * SECOND));
        assert_eq!(u.response_code, Some(500));
        assert_eq!(u.error.as_deref(), Some("HTTP 500"));
    }
    // A count of -1 schedules the first retry a second later.
    let u = handle_failure_at(-1, Some(500), "HTTP 500".to_string(), 5, now);
    assert_eq!(u.next_retry_at, Some(now + SECOND));
    // With a large budget the wait stays at an hour.
    let u = handle_failure_at(100, Some(500), "HTTP 500".to_string(), 1000, now);
    assert_eq!(u.status, WebhookDeliveryStatus::Pending);
    assert_eq!(u.next_retry_at, Some(now + 3600 * SECOND));
    let u = handle_failure_at(5, None, "timeout".to_string(), 5, now);
    assert_eq!(u.status, WebhookDeliveryStatus::Failed);
    assert_eq!(u.next_retry_at, None);
    assert_eq!(u.error.as_deref(), Some("timeout"));
}

#[test]
fn send_outcomes() {
    let now = 10 * SECOND;
    let ok = delivery_update_at(SendOutcome::Response(204), 3, 5, now);
    assert_eq!(ok.status, WebhookDeliveryStatus::Success);
    assert_eq!(ok.response_code, Some(204));
    assert!(ok.error.is_none() && ok.next_retry_at.is_none());

    let server_error = delivery_update_at(SendOutcome::Response(503), 0, 5, now);
    assert_eq!(server_error.status, WebhookDeliveryStatus::Pending);
    assert_eq!(server_error.error.as_deref(), Some("HTTP 503"));
    assert_eq!(server_error.next_retry_at, Some(now + 2 * SECOND));

    let redirect = delivery_update_at(SendOutcome::Response(301), 5, 5, now);
    assert_eq!(redirect.status, WebhookDeliveryStatus::Failed);
    assert_eq!(redirect.error.as_deref(), Some("HTTP 301"));

    let transport = delivery_update_at(SendOutcome::TransportError("connection refused".into()), 1, 5, now);
    assert_eq!(transport.status, WebhookDeliveryStatus::Pending);
    assert_eq!(transport.response_code, None);
    assert_eq!(transport.next_retry_at, Some(now + 4 * SECOND));
}

#[test]
fn events_raised_by_transactions() {
    assert_eq!(WebhookService::event_for(TransactionStatus::Completed), Some("transaction.completed"));
    assert_eq!(WebhookService::event_for(TransactionStatus::Failed), Some("transaction.failed"));
    assert_eq!(WebhookService::event_for(TransactionStatus::Pending), None);
}

#[test]
fn payloads_describe_the_transaction() {
    let t = tx(TransactionStatus::Completed);
    let p = WebhookService::payload_at(&t, "transaction.completed", 99, 1234);
    assert_eq!(p.id, 99);
    assert_eq!(p.event, "transaction.completed");
    assert_eq!(p.created_at, 1234);
    assert_eq!(p.data.transaction_id, 11);
    assert_eq!(p.data.transaction_type, "transfer");
    assert_eq!(p.data.status, "completed");
    assert_eq!(p.data.source_account_id, Some(2));
    assert_eq!(p.data.destination_account_id, Some(3));
    assert_eq!(p.data.amount_cents, 5000);
    assert_eq!(p.data.created_at, 77);

    let a = WebhookService::build_payload(&t, "transaction.completed");
    let b = WebhookService::build_payload(&t, "transaction.completed");
    assert_ne!(a.id, b.id);
    assert_eq!((a.id >> 76) & 0xf, 4);
    assert_eq!((a.id >> 62) & 0x3, 2);
    assert_eq!((b.id >> 76) & 0xf, 4);
    assert_eq!((b.id >> 62) & 0x3, 2);
}

#[test]
fn secrets_are_64_hex_digits() {
    let s = WebhookService::generate_secret();
    assert_eq!(s.len(), 64);
    assert!(s.chars().all(|c| c.is_ascii_hexdigit() && !c.is_ascii_uppercase()));
    assert_ne!(s, WebhookService::generate_secret());
}

#[test]
fn deliveries_need_webhook_and_transaction() {
    assert!(WebhookService::ready_delivery(delivery(), Some(webhook()), Some(tx(TransactionStatus::Failed))).is_some());
    assert!(WebhookService::ready_delivery(delivery(), None, Some(tx(TransactionStatus::Failed))).is_none());
    assert!(WebhookService::ready_delivery(delivery(), Some(webhook()), None).is_none());
}

#[test]
fn delivered_only_on_success() {
    assert!(WebhookService::delivered_at(WebhookDeliveryStatus::Success).is_some());
    assert!(WebhookService::delivered_at(WebhookDeliveryStatus::Pending).is_none());
    assert!(WebhookService::delivered_at(WebhookDeliveryStatus::Failed).is_none());
}

#[test]
fn telemetry_hooks() {
    assert!(init_telemetry("http://localhost:4317").is_ok());
    shutdown_telemetry();
}

#[test]
fn failures_now_are_scheduled_in_the_future() {
    let before = chrono::Utc::now().timestamp_micros();
    let u = handle_failure(0, Some(500), "HTTP 500".to_string(), 5);
    let after = chrono::Utc::now().timestamp_micros();
    let at = u.next_retry_at.unwrap();
    assert!(before + 2 * SECOND <= at && at <= after + 2 * SECOND);
    let done = delivery_update(SendOutcome::Response(200), 0, 5);
    assert_eq!(done.status, WebhookDeliveryStatus::Success);
    let given_up = delivery_update(SendOutcome::Response(500), 5, 5);
    assert_eq!(given_up.status, WebhookDeliveryStatus::Failed);
    assert_eq!(given_up.next_retry_at, None);
}
