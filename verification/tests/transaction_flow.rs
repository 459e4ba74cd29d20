use std::collections::HashMap;

use transaction_service::models::transaction::{
    CreateTransaction, Transaction, TransactionStatus, TransactionType,
};
use transaction_service::services::transaction_service::{
    StoreReply, StoreRequest, TransactionError, TransactionService,
};

const API: u128 = 100;
const OTHER_API: u128 = 200;

/// An in-memory store answering the creation's requests, with a log of the
/// requests it was asked.
struct Store {
    accounts: HashMap<u128, (u128, i64, bool)>,
    by_key: HashMap<u128, Transaction>,
    log: Vec<String>,
    fail_on: Option<&'static str>,
    pending: Option<Transaction>,
    committed: bool,
}

fn record(id: u128, req: &CreateTransaction, key: Option<u128>, status: TransactionStatus) -> Transaction {
    Transaction {
        id,
        idempotency_key: key,
        api_key_id: API,
        transaction_type: req.transaction_type,
        source_account_id: req.source_account_id,
        destination_account_id: req.destination_account_id,
        amount_cents: req.amount_cents,
        status,
        metadata: req.metadata.clone(),
        error_message: None,
        created_at: 1,
        updated_at: 1,
    }
}

fn copy(t: &Transaction) -> Transaction {
    Transaction {
        id: t.id,
        idempotency_key: t.idempotency_key,
        api_key_id: t.api_key_id,
        transaction_type: t.transaction_type,
        source_account_id: t.source_account_id,
        destination_account_id: t.destination_account_id,
        amount_cents: t.amount_cents,
        status: t.status,
        metadata: t.metadata.clone(),
        error_message: t.error_message.clone(),
        created_at: t.created_at,
        updated_at: t.updated_at,
    }
}

impl Store {
    fn new() -> Store {
        let mut accounts = HashMap::new();
        accounts.insert(1, (API, 1000, true));
        accounts.insert(2, (API, 0, true));
        accounts.insert(3, (OTHER_API, 500, true));
        accounts.insert(4, (API, 900, false));
        Store { accounts, by_key: HashMap::new(), log: Vec::new(), fail_on: None, pending: None, committed: false }
    }

    fn run(&mut self, request: CreateTransaction, key: Option<u128>) -> Result<Transaction, TransactionError> {
        let snapshot = self.accounts.clone();
        let (mut flow, mut next) = TransactionService::create(API, request, key);
        loop {
            let name = match &next {
                StoreRequest::Finish(_) => "finish",
                StoreRequest::FindByIdempotencyKey(_) => "find",
                StoreRequest::Begin => "begin",
                StoreRequest::LockAccount(_) => "lock",
                StoreRequest::CheckOwnership { .. } => "owner",
                StoreRequest::CheckActive(_) => "active",
                StoreRequest::InsertPending(_) => "insert",
                StoreRequest::Withdraw { .. } => "withdraw",
                StoreRequest::Deposit { .. } => "deposit",
                StoreRequest::MarkCompleted(_) => "complete",
                StoreRequest::Commit => "commit",
            };
            self.log.push(name.to_string());
            if self.fail_on == Some(name) {
                self.accounts = snapshot.clone();
                next = flow.advance(StoreReply::Failed("boom".to_string()));
                continue;
            }
            let reply = match next {
                StoreRequest::Finish(result) => {
                    if !self.committed {
                        self.accounts = snapshot;
                    }
                    return result;
                }
                StoreRequest::FindByIdempotencyKey(k) => StoreReply::Existing(self.by_key.get(&k).map(copy)),
                StoreRequest::Begin => StoreReply::Done,
                StoreRequest::LockAccount(id) => StoreReply::Balance(match self.accounts.get(&id) {
                    Some((_, balance, true)) => Some(*balance),
                    _ => None,
                }),
                StoreRequest::CheckOwnership { account_id, api_key_id } => {
                    StoreReply::Exists(matches!(self.accounts.get(&account_id), Some((owner, _, _)) if *owner == api_key_id))
                }
                StoreRequest::CheckActive(id) => {
                    StoreReply::Exists(matches!(self.accounts.get(&id), Some((_, _, true))))
                }
                StoreRequest::InsertPending(new) => {
                    let req = CreateTransaction {
                        transaction_type: new.transaction_type,
                        source_account_id: new.source_account_id,
                        destination_account_id: new.destination_account_id,
                        amount_cents: new.amount_cents,
                        metadata: new.metadata,
                    };
                    let t = record(42, &req, new.idempotency_key, TransactionStatus::Pending);
                    self.pending = Some(copy(&t));
                    StoreReply::Record(t)
                }
                StoreRequest::Withdraw { account_id, amount_cents } => {
                    self.accounts.get_mut(&account_id).unwrap().1 -= amount_cents;
                    StoreReply::Done
                }
                StoreRequest::Deposit { account_id, amount_cents } => {
                    self.accounts.get_mut(&account_id).unwrap().1 += amount_cents;
                    StoreReply::Done
                }
                StoreRequest::MarkCompleted(id) => {
                    let mut t = copy(self.pending.as_ref().unwrap());
                    assert_eq!(t.id, id);
                    t.status = TransactionStatus::Completed;
                    if let Some(k) = t.idempotency_key {
                        self.by_key.insert(k, copy(&t));
                    }
                    StoreReply::Record(t)
                }
                StoreRequest::Commit => {
                    self.committed = true;
                    StoreReply::Done
                }
            };
            next = flow.advance(reply);
        }
    }

    fn balance(&self, id: u128) -> i64 {
        self.accounts[&id].1
    }
}

fn request(kind: TransactionType, source: Option<u128>, destination: Option<u128>, amount: i64) -> CreateTransaction {
    CreateTransaction {
        transaction_type: kind,
        source_account_id: source,
        destination_account_id: destination,
        amount_cents: amount,
        metadata: "{\"order_id\":\"ORD-12345\"}".to_string(),
    }
}

#[test]
fn credit_adds_to_destination() {
    let mut store = Store::new();
    let t = store.run(request(TransactionType::Credit, None, Some(2), 10000), None).unwrap();
    assert_eq!(t.status, TransactionStatus::Completed);
    assert_eq!(t.amount_cents, 10000);
    assert_eq!(store.balance(2), 10000);
    assert_eq!(store.log, ["begin", "active", "owner", "insert", "deposit", "complete", "commit", "finish"]);
}

#[test]
fn debit_removes_from_source() {
    let mut store = Store::new();
    store.run(request(TransactionType::Debit, Some(1), None, 400), None).unwrap();
    assert_eq!(store.balance(1), 600);
    assert_eq!(store.log, ["begin", "lock", "owner", "insert", "withdraw", "complete", "commit", "finish"]);
}

#[test]
fn transfer_moves_funds_and_conserves_total() {
    let mut store = Store::new();
    let t = store.run(request(TransactionType::Transfer, Some(1), Some(2), 250), None).unwrap();
    assert_eq!(t.transaction_type, TransactionType::Transfer);
    assert_eq!(store.balance(1), 750);
    assert_eq!(store.balance(2), 250);
    assert_eq!(
        store.log,
        ["begin", "lock", "owner", "active", "owner", "insert", "withdraw", "deposit", "complete", "commit", "finish"]
    );
}

#[test]
fn debit_of_whole_balance_leaves_zero() {
    let mut store = Store::new();
    store.run(request(TransactionType::Debit, Some(1), None, 1000), None).unwrap();
    assert_eq!(store.balance(1), 0);
}

#[test]
fn insufficient_balance_is_refused_without_writes() {
    let mut store = Store::new();
    match store.run(request(TransactionType::Debit, Some(1), None, 1001), None) {
        Err(TransactionError::InsufficientBalance(id, balance, required)) => {
            assert_eq!((id, balance, required), (1, 1000, 1001));
        }
        _ => panic!("expected insufficient balance"),
    }
    assert_eq!(store.balance(1), 1000);
    assert_eq!(store.log, ["begin", "lock", "owner", "finish"]);
}

#[test]
fn foreign_balance_is_not_disclosed() {
    let mut store = Store::new();
    assert!(matches!(
        store.run(request(TransactionType::Debit, Some(3), None, 501), None),
        Err(TransactionError::AccountAccessDenied)
    ));
    assert_eq!(store.balance(3), 500);
    assert_eq!(store.log, ["begin", "lock", "owner", "finish"]);
}

#[test]
fn refusals_come_before_unnamed_accounts_matter() {
    let mut store = Store::new();
    store.run(request(TransactionType::Credit, None, Some(2), 300), Some(5)).unwrap();
    store.committed = false;
    assert!(matches!(
        store.run(request(TransactionType::Transfer, None, None, 300), Some(5)),
        Err(TransactionError::DuplicateIdempotencyKey(_))
    ));
    let mut store = Store::new();
    assert!(matches!(
        store.run(request(TransactionType::Transfer, Some(9), None, 1), None),
        Err(TransactionError::AccountNotFound(9))
    ));
    let mut store = Store::new();
    assert!(matches!(
        store.run(request(TransactionType::Credit, Some(1), None, 2000), None),
        Err(TransactionError::InsufficientBalance(1, 1000, 2000))
    ));
    assert_eq!(store.balance(1), 1000);
}

#[test]
fn unknown_or_inactive_accounts_are_not_found() {
    let mut store = Store::new();
    assert!(matches!(
        store.run(request(TransactionType::Debit, Some(9), None, 1), None),
        Err(TransactionError::AccountNotFound(9))
    ));
    let mut store = Store::new();
    assert!(matches!(
        store.run(request(TransactionType::Debit, Some(4), None, 1), None),
        Err(TransactionError::AccountNotFound(4))
    ));
    let mut store = Store::new();
    assert!(matches!(
        store.run(request(TransactionType::Credit, None, Some(4), 1), None),
        Err(TransactionError::AccountNotFound(4))
    ));
    assert_eq!(store.log, ["begin", "active", "finish"]);
}

#[test]
fn accounts_of_another_business_are_denied() {
    let mut store = Store::new();
    assert!(matches!(
        store.run(request(TransactionType::Debit, Some(3), None, 10), None),
        Err(TransactionError::AccountAccessDenied)
    ));
    assert_eq!(store.balance(3), 500);
    let mut store = Store::new();
    assert!(matches!(
        store.run(request(TransactionType::Transfer, Some(1), Some(3), 10), None),
        Err(TransactionError::AccountAccessDenied)
    ));
    assert_eq!(store.balance(1), 1000);
    assert_eq!(store.balance(3), 500);
}

#[test]
fn repeated_idempotency_key_returns_the_first_transaction() {
    let mut store = Store::new();
    let first = store.run(request(TransactionType::Credit, None, Some(2), 300), Some(77)).unwrap();
    assert_eq!(first.idempotency_key, Some(77));
    store.log.clear();
    store.committed = false;
    match store.run(request(TransactionType::Credit, None, Some(2), 300), Some(77)) {
        Err(TransactionError::DuplicateIdempotencyKey(existing)) => assert_eq!(existing.id, first.id),
        _ => panic!("expected the stored transaction"),
    }
    assert_eq!(store.balance(2), 300);
    assert_eq!(store.log, ["find", "finish"]);
}

#[test]
fn store_failure_rolls_back() {
    let mut store = Store::new();
    store.fail_on = Some("deposit");
    match store.run(request(TransactionType::Transfer, Some(1), Some(2), 100), None) {
        Err(TransactionError::Database(m)) => assert_eq!(m, "boom"),
        _ => panic!("expected a store failure"),
    }
    assert_eq!(store.balance(1), 1000);
    assert_eq!(store.balance(2), 0);
    assert!(!store.log.contains(&"commit".to_string()));
}

#[test]
fn transaction_error_descriptions() {
    assert_eq!(
        TransactionError::AccountNotFound(0x550e8400_e29b_41d4_a716_446655440000).describe(),
        "Account not found: 550e8400-e29b-41d4-a716-446655440000"
    );
    assert_eq!(
        TransactionError::InsufficientBalance(1, 5, 10).describe(),
        "Insufficient balance: account 00000000-0000-0000-0000-000000000001 has 5 cents, but 10 cents required"
    );
    assert_eq!(TransactionError::AccountAccessDenied.describe(), "Account does not belong to this API key");
    assert_eq!(TransactionError::Database("x".to_string()).describe(), "Database error: x");
}
