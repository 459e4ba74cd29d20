//! The API's errors, their HTTP statuses, codes and messages.
use vstd::prelude::*;
use vstd::string::*;
use crate::encoding::{decimal_string, decimal_text, uuid_string, uuid_text};
use crate::services::transaction_service::TransactionError;

verus! {

#[derive(Debug)]
pub enum ApiError {
    Unauthorized,
    InvalidApiKey,
    Forbidden,
    NotFound(String),
    Validation(String),
    Conflict(String),
    RateLimitExceeded,
    InsufficientBalance(String),
    /// An unexpected failure; its description, kept for the log.
    Internal(String),
    /// A failure of the store; its description, kept for the log.
    Database(String),
}

/// The body of an error answer.
pub struct ErrorResponse {
    pub error: ErrorBody,
}

pub struct ErrorBody {
    pub code: String,
    pub message: String,
    /// Further details as JSON text; never set by the service.
    pub details: Option<String>,
}

/// `"Account <id> not found"`.
pub open spec fn account_not_found_text(id: u128) -> Seq<char> {
    "Account "@ + uuid_text(id) + " not found"@
}

impl ApiError {
    /// The HTTP status of the answer.
    pub open spec fn status(&self) -> u16 {
        match self {
            ApiError::Unauthorized => 401,
            ApiError::InvalidApiKey => 401,
            ApiError::Forbidden => 403,
            ApiError::NotFound(_) => 404,
            ApiError::Validation(_) => 400,
            ApiError::Conflict(_) => 409,
            ApiError::RateLimitExceeded => 429,
            ApiError::InsufficientBalance(_) => 422,
            ApiError::Internal(_) => 500,
            ApiError::Database(_) => 500,
        }
    }

    /// The machine-readable code of the answer; every failure on the
    /// service's side, the store's included, is an internal error.
    pub open spec fn code(&self) -> Seq<char> {
        match self {
            ApiError::Unauthorized => "unauthorized"@,
            ApiError::InvalidApiKey => "invalid_api_key"@,
            ApiError::Forbidden => "forbidden"@,
            ApiError::NotFound(_) => "not_found"@,
            ApiError::Validation(_) => "validation_error"@,
            ApiError::Conflict(_) => "conflict"@,
            ApiError::RateLimitExceeded => "rate_limit_exceeded"@,
            ApiError::InsufficientBalance(_) => "insufficient_balance"@,
            ApiError::Internal(_) => "internal_error"@,
            ApiError::Database(_) => "internal_error"@,
        }
    }

    /// The error described in words.
    pub open spec fn description(&self) -> Seq<char> {
        match self {
            ApiError::Unauthorized => "Authentication required"@,
            ApiError::InvalidApiKey => "Invalid API key"@,
            ApiError::Forbidden => "Access forbidden"@,
            ApiError::NotFound(m) => "Resource not found: "@ + m@,
            ApiError::Validation(m) => "Validation error: "@ + m@,
            ApiError::Conflict(m) => "Conflict: "@ + m@,
            ApiError::RateLimitExceeded => "Rate limit exceeded"@,
            ApiError::InsufficientBalance(m) => "Insufficient balance: "@ + m@,
            ApiError::Internal(_) => "Internal server error"@,
            ApiError::Database(_) => "Database error"@,
        }
    }

    /// The human-readable message of the answer: the description for the
    /// errors without a message of their own, the message for those with
    /// one, and a fixed sentence for internal and store failures, whose
    /// details stay out of the answer.
    pub open spec fn message(&self) -> Seq<char> {
        match self {
            ApiError::NotFound(m) => m@,
            ApiError::Validation(m) => m@,
            ApiError::Conflict(m) => m@,
            ApiError::InsufficientBalance(m) => m@,
            ApiError::Internal(_) => "An internal error occurred"@,
            ApiError::Database(_) => "A database error occurred"@,
            _ => self.description(),
        }
    }

    /// The error described in words, for logs.
    pub fn describe(&self) -> (text: String)
        ensures
            text@ == self.description(),
    {
        match self {
            ApiError::Unauthorized => String::from_str("Authentication required"),
            ApiError::InvalidApiKey => String::from_str("Invalid API key"),
            ApiError::Forbidden => String::from_str("Access forbidden"),
            ApiError::NotFound(m) => String::from_str("Resource not found: ").concat(m.as_str()),
            ApiError::Validation(m) => String::from_str("Validation error: ").concat(m.as_str()),
            ApiError::Conflict(m) => String::from_str("Conflict: ").concat(m.as_str()),
            ApiError::RateLimitExceeded => String::from_str("Rate limit exceeded"),
            ApiError::InsufficientBalance(m) => String::from_str("Insufficient balance: ").concat(m.as_str()),
            ApiError::Internal(_) => String::from_str("Internal server error"),
            ApiError::Database(_) => String::from_str("Database error"),
        }
    }

    /// The HTTP status of the answer.
    pub fn status_code(&self) -> (status: u16)
        ensures
            status == self.status(),
    {
        match self {
            ApiError::Unauthorized => 401,
            ApiError::InvalidApiKey => 401,
            ApiError::Forbidden => 403,
            ApiError::NotFound(_) => 404,
            ApiError::Validation(_) => 400,
            ApiError::Conflict(_) => 409,
            ApiError::RateLimitExceeded => 429,
            ApiError::InsufficientBalance(_) => 422,
            ApiError::Internal(_) => 500,
            ApiError::Database(_) => 500,
        }
    }

    /// The answer to an error: its status and a body with its code, its
    /// message and no details.
    pub fn into_response(self) -> (answer: (u16, ErrorResponse))
        ensures
            answer.0 == self.status(),
            answer.1.error.code@ == self.code(),
            answer.1.error.message@ == self.message(),
            answer.1.error.details is None,
    {
        let status = self.status_code();
        let (code, message) = match self {
            ApiError::Unauthorized => (String::from_str("unauthorized"), self.describe()),
            ApiError::InvalidApiKey => (String::from_str("invalid_api_key"), self.describe()),
            ApiError::Forbidden => (String::from_str("forbidden"), self.describe()),
            ApiError::NotFound(m) => (String::from_str("not_found"), m),
            ApiError::Validation(m) => (String::from_str("validation_error"), m),
            ApiError::Conflict(m) => (String::from_str("conflict"), m),
            ApiError::RateLimitExceeded => (String::from_str("rate_limit_exceeded"), self.describe()),
            ApiError::InsufficientBalance(m) => (String::from_str("insufficient_balance"), m),
            ApiError::Internal(_) => (String::from_str("internal_error"), String::from_str("An internal error occurred")),
            ApiError::Database(_) => (String::from_str("internal_error"), String::from_str("A database error occurred")),
        };
        (status, ErrorResponse { error: ErrorBody { code, message, details: None } })
    }

    /// The error for an account that is not there.
    pub fn account_not_found(id: u128) -> (error: ApiError)
        ensures
            error matches ApiError::NotFound(m) && m@ == account_not_found_text(id),
    {
        let id_text = uuid_string(id);
        ApiError::NotFound(String::from_str("Account ").concat(id_text.as_str()).concat(" not found"))
    }

    /// The error for a transaction that is not there.
    pub fn transaction_not_found(id: u128) -> (error: ApiError)
        ensures
            error matches ApiError::NotFound(m) && m@ == "Transaction "@ + uuid_text(id) + " not found"@,
    {
        let id_text = uuid_string(id);
        ApiError::NotFound(String::from_str("Transaction ").concat(id_text.as_str()).concat(" not found"))
    }

    /// The error for a webhook that is not there.
    pub fn webhook_not_found(id: u128) -> (error: ApiError)
        ensures
            error matches ApiError::NotFound(m) && m@ == "Webhook "@ + uuid_text(id) + " not found"@,
    {
        let id_text = uuid_string(id);
        ApiError::NotFound(String::from_str("Webhook ").concat(id_text.as_str()).concat(" not found"))
    }

    /// The API's error for a failed transaction creation: an unknown account
    /// is not found, a short balance is explained with the amounts, an
    /// account of another business is forbidden, a repeated idempotency key
    /// is a conflict, a store failure stays a store failure.
    pub open spec fn answers_transaction_error(err: TransactionError, error: ApiError) -> bool {
        match err {
            TransactionError::AccountNotFound(id) => error matches ApiError::NotFound(m) && m@
                == account_not_found_text(id),
            TransactionError::InsufficientBalance(id, balance, required) => error matches ApiError::InsufficientBalance(m)
                && m@ == "Account "@ + uuid_text(id) + " has "@ + decimal_text(balance as int) + " cents, but "@
                + decimal_text(required as int) + " cents required"@,
            TransactionError::AccountAccessDenied => error is Forbidden,
            TransactionError::DuplicateIdempotencyKey(_) => error matches ApiError::Conflict(m) && m@
                == "Duplicate idempotency key"@,
            TransactionError::Database(e) => error == ApiError::Database(e),
        }
    }

    /// The API's error for a failed transaction creation, as
    /// `answers_transaction_error` says.
    pub fn from(err: TransactionError) -> (error: ApiError)
        ensures
            Self::answers_transaction_error(err, error),
    {
        match err {
            TransactionError::AccountNotFound(id) => ApiError::account_not_found(id),
            TransactionError::InsufficientBalance(id, balance, required) => {
                let id_text = uuid_string(id);
                let balance_text = decimal_string(balance);
                let required_text = decimal_string(required);
                ApiError::InsufficientBalance(
                    String::from_str("Account ").concat(id_text.as_str()).concat(" has ").concat(
                        balance_text.as_str(),
                    ).concat(" cents, but ").concat(required_text.as_str()).concat(" cents required"),
                )
            },
            TransactionError::AccountAccessDenied => ApiError::Forbidden,
            TransactionError::DuplicateIdempotencyKey(_) => ApiError::Conflict(
                String::from_str("Duplicate idempotency key"),
            ),
            TransactionError::Database(e) => ApiError::Database(e),
        }
    }
}

} // verus!
