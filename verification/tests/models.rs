use transaction_service::models::account::{
    default_currency, Account, AccountResponse, BalanceResponse, CreateAccount,
};
use transaction_service::models::api_key::{ApiKey, ApiKeyResponse};
use transaction_service::models::transaction::{
    CreateTransaction, Transaction, TransactionResponse, TransactionStatus, TransactionType,
};
use transaction_service::models::webhook::{default_events, CreateWebhook, Webhook, WebhookResponse};

fn account(balance_cents: i64, currency: &str) -> Account {
    Account {
        id: 1,
        api_key_id: 2,
        name: "Operating Account".to_string(),
        balance_cents,
        currency: currency.to_string(),
        is_active: true,
        created_at: 10,
        updated_at: 20,
    }
}

fn transaction(amount_cents: i64) -> Transaction {
    Transaction {
        id: 7,
        idempotency_key: None,
        api_key_id: 2,
        transaction_type: TransactionType::Credit,
        source_account_id: None,
        destination_account_id: Some(1),
        amount_cents,
        status: TransactionStatus::Completed,
        metadata: "{}".to_string(),
        error_message: None,
        created_at: 30,
        updated_at: 40,
    }
}

fn request(kind: TransactionType, source: Option<u128>, destination: Option<u128>, amount: i64) -> CreateTransaction {
    CreateTransaction {
        transaction_type: kind,
        source_account_id: source,
        destination_account_id: destination,
        amount_cents: amount,
        metadata: "null".to_string(),
    }
}

#[test]
fn account_response_formats_balance() {
    let r = AccountResponse::from(account(100000, "USD"));
    assert_eq!(r.balance_formatted, "1000.00 USD");
    assert_eq!(r.balance_cents, 100000);
    assert_eq!(r.name, "Operating Account");
    assert_eq!(AccountResponse::from(account(0, "USD")).balance_formatted, "0.00 USD");
    assert_eq!(AccountResponse::from(account(5, "EUR")).balance_formatted, "0.05 EUR");
    assert_eq!(AccountResponse::from(account(1005, "USD")).balance_formatted, "10.05 USD");
}

#[test]
fn balance_response_at_a_time() {
    let r = BalanceResponse::at(account(12345, "USD"), 99);
    assert_eq!(r.balance_formatted, "123.45 USD");
    assert_eq!(r.as_of, 99);
    assert_eq!(r.account_id, 1);
    let now = BalanceResponse::from(account(1, "USD"));
    assert_eq!(now.balance_formatted, "0.01 USD");
}

#[test]
fn transaction_response_formats_amount() {
    assert_eq!(TransactionResponse::from(transaction(10000)).amount_formatted, "100.00");
    assert_eq!(TransactionResponse::from(transaction(5000)).amount_formatted, "50.00");
    assert_eq!(TransactionResponse::from(transaction(-5)).amount_formatted, "-0.05");
    assert_eq!(TransactionResponse::from(transaction(1)).amount_formatted, "0.01");
    let r = TransactionResponse::from(transaction(99));
    assert_eq!(r.id, 7);
    assert_eq!(r.metadata, "{}");
    assert_eq!(r.created_at, 30);
}

#[test]
fn names_on_the_wire() {
    assert_eq!(TransactionType::Credit.as_str(), "credit");
    assert_eq!(TransactionType::Debit.as_str(), "debit");
    assert_eq!(TransactionType::Transfer.as_str(), "transfer");
    assert_eq!(TransactionStatus::Pending.as_str(), "pending");
    assert_eq!(TransactionStatus::Completed.as_str(), "completed");
    assert_eq!(TransactionStatus::Failed.as_str(), "failed");
}

#[test]
fn create_account_validation() {
    let ok = CreateAccount { name: "Main".to_string(), currency: "USD".to_string() };
    assert!(ok.validate().is_ok());
    let no_name = CreateAccount { name: String::new(), currency: "USD".to_string() };
    assert_eq!(no_name.validate().unwrap_err(), "name: Name must be between 1 and 255 characters");
    let long_name = CreateAccount { name: "x".repeat(256), currency: "USD".to_string() };
    assert!(long_name.validate().is_err());
    let max_name = CreateAccount { name: "é".repeat(255), currency: "USD".to_string() };
    assert!(max_name.validate().is_ok());
    let bad_currency = CreateAccount { name: "Main".to_string(), currency: "US".to_string() };
    assert_eq!(bad_currency.validate().unwrap_err(), "currency: Currency must be a 3-letter ISO code");
    for code in ["usd", "US1", "U D", "ÜSD"] {
        let invalid = CreateAccount { name: "Main".to_string(), currency: code.to_string() };
        assert_eq!(invalid.validate().unwrap_err(), "currency: Currency must be a 3-letter ISO code");
    }
    let euro = CreateAccount { name: "Main".to_string(), currency: "EUR".to_string() };
    assert_eq!(euro.validate(), Ok(()));
    let both = CreateAccount { name: String::new(), currency: "DOLLARS".to_string() };
    assert_eq!(
        both.validate().unwrap_err(),
        "name: Name must be between 1 and 255 characters\ncurrency: Currency must be a 3-letter ISO code"
    );
    assert_eq!(default_currency(), "USD");
}

#[test]
fn create_transaction_amount_validation() {
    assert!(request(TransactionType::Credit, None, Some(1), 1).validate().is_ok());
    assert_eq!(
        request(TransactionType::Credit, None, Some(1), 0).validate().unwrap_err(),
        "amount_cents: Amount must be greater than 0"
    );
    assert!(request(TransactionType::Credit, None, Some(1), -100).validate().is_err());
}

#[test]
fn create_transaction_account_validation() {
    assert_eq!(request(TransactionType::Credit, None, Some(1), 5).validate_accounts(), Ok(()));
    assert_eq!(
        request(TransactionType::Credit, Some(1), None, 5).validate_accounts(),
        Err("destination_account_id is required for credit transactions")
    );
    assert_eq!(request(TransactionType::Debit, Some(1), None, 5).validate_accounts(), Ok(()));
    assert_eq!(
        request(TransactionType::Debit, None, Some(1), 5).validate_accounts(),
        Err("source_account_id is required for debit transactions")
    );
    assert_eq!(request(TransactionType::Transfer, Some(1), Some(2), 5).validate_accounts(), Ok(()));
    assert_eq!(
        request(TransactionType::Transfer, Some(1), None, 5).validate_accounts(),
        Err("Both source_account_id and destination_account_id are required for transfer transactions")
    );
    assert_eq!(
        request(TransactionType::Transfer, Some(3), Some(3), 5).validate_accounts(),
        Err("source_account_id and destination_account_id cannot be the same")
    );
}

#[test]
fn api_key_hashing_and_generation() {
    assert_eq!(
        ApiKey::hash_key("abc"),
        "ba7816bf8f01cfea414140de5dae2223b00361a396177a9cb410ff61f20015ad"
    );
    let (raw, hash, prefix) = ApiKey::generate_key();
    assert!(raw.starts_with("sk_live_"));
    assert_eq!(raw.len(), 72);
    assert!(raw[8..].chars().all(|c| c.is_ascii_hexdigit() && !c.is_ascii_uppercase()));
    assert_eq!(prefix, "sk_live_");
    assert_eq!(hash, ApiKey::hash_key(&raw));
    let (other, _, _) = ApiKey::generate_key();
    assert_ne!(raw, other);

    let key = ApiKey {
        id: 1,
        key_hash: hash,
        key_prefix: prefix,
        business_name: "My Business".to_string(),
        is_active: true,
        created_at: 5,
        updated_at: 6,
    };
    assert!(key.verify_key(&raw));
    assert!(!key.verify_key(&other));
    let listed = ApiKeyResponse::from(key);
    assert_eq!(listed.key_prefix, "sk_live_");
    assert_eq!(listed.business_name, "My Business");
    assert_eq!(listed.created_at, 5);
}

#[test]
fn webhook_defaults_and_validation() {
    assert_eq!(default_events(), vec!["transaction.completed".to_string(), "transaction.failed".to_string()]);
    let ok = CreateWebhook { url: "https://example.com/hooks".to_string(), events: default_events() };
    assert!(ok.validate().is_ok());
    let bad = CreateWebhook { url: "not a url".to_string(), events: vec![] };
    assert_eq!(bad.validate().unwrap_err(), "url: Invalid URL format");
    let long = CreateWebhook { url: format!("https://example.com/{}", "a".repeat(2100)), events: vec![] };
    assert_eq!(long.validate().unwrap_err(), "url: URL must be at most 2048 characters");
}

#[test]
fn webhook_response_hides_secret() {
    let hook = Webhook {
        id: 4,
        api_key_id: 2,
        url: "https://example.com".to_string(),
        secret: "s3cret".to_string(),
        events: default_events(),
        is_active: true,
        created_at: 1,
        updated_at: 2,
    };
    let r = WebhookResponse::from(hook);
    assert_eq!(r.id, 4);
    assert_eq!(r.url, "https://example.com");
    assert_eq!(r.events.len(), 2);
    assert_eq!(r.created_at, 1);
}

#[test]
fn webhook_url_failing_both_rules() {
    let both = CreateWebhook { url: format!("not a url {}", "a".repeat(2100)), events: vec![] };
    assert_eq!(both.validate().unwrap_err(), "url: URL must be at most 2048 characters, Invalid URL format");
    let exactly = CreateWebhook { url: format!("https://example.com/{}", "a".repeat(2048 - 20)), events: vec![] };
    assert_eq!(exactly.url.chars().count(), 2048);
    assert!(exactly.validate().is_ok());
}
