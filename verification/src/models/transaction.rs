//! Transactions: credits, debits and transfers between accounts.
use vstd::prelude::*;
use vstd::string::*;
use crate::encoding::{cents_text, push_cents};

verus! {

/// The kind of a transaction.
#[derive(Clone, Copy, Debug, PartialEq, Eq, Structural)]
pub enum TransactionType {
    Credit,
    Debit,
    Transfer,
}

/// Where a transaction is in its life.
#[derive(Clone, Copy, Debug, PartialEq, Eq, Structural)]
pub enum TransactionStatus {
    Pending,
    Completed,
    Failed,
}

impl TransactionType {
    /// The lowercase name used on the wire.
    pub open spec fn name(self) -> Seq<char> {
        match self {
            TransactionType::Credit => seq!['c', 'r', 'e', 'd', 'i', 't'],
            TransactionType::Debit => seq!['d', 'e', 'b', 'i', 't'],
            TransactionType::Transfer => seq!['t', 'r', 'a', 'n', 's', 'f', 'e', 'r'],
        }
    }

    /// The lowercase name used on the wire: "credit", "debit" or "transfer".
    pub fn as_str(&self) -> (name: &'static str)
        ensures
            name@ == self.name(),
    {
        proof {
            reveal_strlit("credit");
            reveal_strlit("debit");
            reveal_strlit("transfer");
        }
        match self {
            TransactionType::Credit => "credit",
            TransactionType::Debit => "debit",
            TransactionType::Transfer => "transfer",
        }
    }
}

impl TransactionStatus {
    /// The lowercase name used on the wire.
    pub open spec fn name(self) -> Seq<char> {
        match self {
            TransactionStatus::Pending => seq!['p', 'e', 'n', 'd', 'i', 'n', 'g'],
            TransactionStatus::Completed => seq!['c', 'o', 'm', 'p', 'l', 'e', 't', 'e', 'd'],
            TransactionStatus::Failed => seq!['f', 'a', 'i', 'l', 'e', 'd'],
        }
    }

    /// The lowercase name used on the wire: "pending", "completed" or "failed".
    pub fn as_str(&self) -> (name: &'static str)
        ensures
            name@ == self.name(),
    {
        proof {
            reveal_strlit("pending");
            reveal_strlit("completed");
            reveal_strlit("failed");
        }
        match self {
            TransactionStatus::Pending => "pending",
            TransactionStatus::Completed => "completed",
            TransactionStatus::Failed => "failed",
        }
    }
}

/// A transaction as it is stored.
#[derive(Debug, Clone)]
pub struct Transaction {
    pub id: u128,
    pub idempotency_key: Option<u128>,
    pub api_key_id: u128,
    pub transaction_type: TransactionType,
    pub source_account_id: Option<u128>,
    pub destination_account_id: Option<u128>,
    pub amount_cents: i64,
    pub status: TransactionStatus,
    /// Client-provided metadata, as JSON text.
    pub metadata: String,
    pub error_message: Option<String>,
    pub created_at: i64,
    pub updated_at: i64,
}

/// A request to create a transaction.
#[derive(Debug)]
pub struct CreateTransaction {
    pub transaction_type: TransactionType,
    pub source_account_id: Option<u128>,
    pub destination_account_id: Option<u128>,
    pub amount_cents: i64,
    /// Client-provided metadata, as JSON text ("null" when absent).
    pub metadata: String,
}

impl CreateTransaction {
    /// The accounts that the kind of transaction needs are named: a
    /// destination for a credit, a source for a debit, both for a transfer.
    pub open spec fn names_required_accounts(&self) -> bool {
        match self.transaction_type {
            TransactionType::Credit => self.destination_account_id is Some,
            TransactionType::Debit => self.source_account_id is Some,
            TransactionType::Transfer => self.source_account_id is Some
                && self.destination_account_id is Some,
        }
    }

    /// Whether the accounts that the kind of transaction needs are named.
    pub fn has_required_accounts(&self) -> (named: bool)
        ensures
            named == self.names_required_accounts(),
    {
        match self.transaction_type {
            TransactionType::Credit => self.destination_account_id.is_some(),
            TransactionType::Debit => self.source_account_id.is_some(),
            TransactionType::Transfer => self.source_account_id.is_some() && self.destination_account_id.is_some(),
        }
    }

    /// The field rule: the amount is at least one cent.
    pub open spec fn amount_is_valid(&self) -> bool {
        self.amount_cents >= 1
    }

    /// Every amount of at least one cent passes the field rule; zero and
    /// negative amounts do not.
    pub proof fn law_positive_amounts(&self)
        ensures
            self.amount_is_valid() <==> self.amount_cents > 0,
    {
    }

    /// Field validation: the amount must be at least one cent. The error is
    /// the field's name and message, "amount_cents: Amount must be greater than 0".
    pub fn validate(&self) -> (result: Result<(), String>)
        ensures
            result is Ok <==> self.amount_is_valid(),
            result matches Err(message) ==> message@ == "amount_cents: Amount must be greater than 0"@,
    {
        if self.amount_cents < 1 {
            Err(String::from_str("amount_cents: Amount must be greater than 0"))
        } else {
            Ok(())
        }
    }

    /// What is wrong with the accounts named, if anything: a missing
    /// account that the kind needs, or a transfer to its own source.
    pub open spec fn accounts_problem(&self) -> Option<Seq<char>> {
        match self.transaction_type {
            TransactionType::Credit => if self.destination_account_id is None {
                Some("destination_account_id is required for credit transactions"@)
            } else {
                None
            },
            TransactionType::Debit => if self.source_account_id is None {
                Some("source_account_id is required for debit transactions"@)
            } else {
                None
            },
            TransactionType::Transfer => if !self.names_required_accounts() {
                Some(
                    "Both source_account_id and destination_account_id are required for transfer transactions"@,
                )
            } else if self.source_account_id == self.destination_account_id {
                Some("source_account_id and destination_account_id cannot be the same"@)
            } else {
                None
            },
        }
    }

    /// The accounts named fit the kind of transaction; a transfer's two
    /// accounts differ.
    pub fn validate_accounts(&self) -> (result: Result<(), &'static str>)
        ensures
            match self.accounts_problem() {
                None => result is Ok,
                Some(problem) => result matches Err(message) && message@ == problem,
            },
            result is Ok ==> self.names_required_accounts(),
    {
        match self.transaction_type {
            TransactionType::Credit => {
                if self.destination_account_id.is_none() {
                    return Err("destination_account_id is required for credit transactions");
                }
            },
            TransactionType::Debit => {
                if self.source_account_id.is_none() {
                    return Err("source_account_id is required for debit transactions");
                }
            },
            TransactionType::Transfer => {
                if self.source_account_id.is_none() || self.destination_account_id.is_none() {
                    return Err(
                        "Both source_account_id and destination_account_id are required for transfer transactions",
                    );
                }
                if self.source_account_id == self.destination_account_id {
                    return Err("source_account_id and destination_account_id cannot be the same");
                }
            },
        }
        Ok(())
    }
}

/// A transaction as the API shows it.
#[derive(Debug)]
pub struct TransactionResponse {
    pub id: u128,
    pub idempotency_key: Option<u128>,
    pub transaction_type: TransactionType,
    pub source_account_id: Option<u128>,
    pub destination_account_id: Option<u128>,
    pub amount_cents: i64,
    /// The amount in units with two decimals, such as "100.00".
    pub amount_formatted: String,
    pub status: TransactionStatus,
    pub metadata: String,
    pub error_message: Option<String>,
    pub created_at: i64,
}

impl TransactionResponse {
    /// The API's view of a stored transaction: every field carried over, the
    /// amount also written with two decimals.
    pub fn from(tx: Transaction) -> (response: TransactionResponse)
        ensures
            response.id == tx.id,
            response.idempotency_key == tx.idempotency_key,
            response.transaction_type == tx.transaction_type,
            response.source_account_id == tx.source_account_id,
            response.destination_account_id == tx.destination_account_id,
            response.amount_cents == tx.amount_cents,
            response.amount_formatted@ == cents_text(tx.amount_cents as int),
            response.status == tx.status,
            response.metadata == tx.metadata,
            response.error_message == tx.error_message,
            response.created_at == tx.created_at,
    {
        let mut amount_formatted = String::new();
        push_cents(&mut amount_formatted, tx.amount_cents);
        proof {
            assert(amount_formatted@ =~= cents_text(tx.amount_cents as int));
        }
        TransactionResponse {
            id: tx.id,
            idempotency_key: tx.idempotency_key,
            transaction_type: tx.transaction_type,
            source_account_id: tx.source_account_id,
            destination_account_id: tx.destination_account_id,
            amount_cents: tx.amount_cents,
            amount_formatted,
            status: tx.status,
            metadata: tx.metadata,
            error_message: tx.error_message,
            created_at: tx.created_at,
        }
    }
}

} // verus!
