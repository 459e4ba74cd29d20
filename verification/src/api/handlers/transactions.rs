//! Creating a transaction through the API: validation, the idempotency key,
//! and the answer.
use vstd::prelude::*;
use crate::api::errors::ApiError;
use crate::encoding::{parse_uuid, parsed_uuid};
use crate::models::transaction::{CreateTransaction, Transaction};
use crate::services::transaction_service::TransactionError;

verus! {

/// The idempotency key of a request: the value of its Idempotency-Key
/// header read as a UUID; none when the header is missing or not a UUID.
pub fn idempotency_key(header: Option<&str>) -> (key: Option<u128>)
    ensures
        key == match header {
            Some(h) => parsed_uuid(h@),
            None => None,
        },
{
    match header {
        Some(h) => parse_uuid(h),
        None => None,
    }
}

/// A request to create a transaction is checked field by field, then for
/// the accounts its kind needs; the first failure is a validation error
/// with its message.
pub fn check_request(request: &CreateTransaction) -> (checked: Result<(), ApiError>)
    ensures
        checked is Ok <==> request.amount_is_valid() && request.accounts_problem() is None,
        !request.amount_is_valid() ==> (checked matches Err(ApiError::Validation(m)) && m@
            == "amount_cents: Amount must be greater than 0"@),
        request.amount_is_valid() && request.accounts_problem() is Some ==> (checked matches Err(
            ApiError::Validation(m),
        ) && m@ == request.accounts_problem()->0),
        checked is Ok ==> request.names_required_accounts(),
{
    match request.validate() {
        Err(message) => Err(ApiError::Validation(message)),
        Ok(()) => match request.validate_accounts() {
            Err(message) => Err(ApiError::Validation(String::from_str(message))),
            Ok(()) => Ok(()),
        },
    }
}

/// The answer to a creation: a new transaction is created (201) and its
/// webhooks are to be queued; a repeated idempotency key gives back the
/// stored transaction (200) and queues nothing; any other failure is the
/// API's error for it: 404 for an unknown account, 403 for another
/// business's account, 422 for a short balance, 500 for a store failure.
pub struct CreationReply {
    pub status: u16,
    pub transaction: Transaction,
    pub queue_webhooks: bool,
}

pub fn creation_reply(result: Result<Transaction, TransactionError>) -> (reply: Result<CreationReply, ApiError>)
    ensures
        match result {
            Ok(t) => reply == Ok::<CreationReply, ApiError>(
                CreationReply { status: 201, transaction: t, queue_webhooks: true },
            ),
            Err(TransactionError::DuplicateIdempotencyKey(existing)) => reply == Ok::<
                CreationReply,
                ApiError,
            >(CreationReply { status: 200, transaction: existing, queue_webhooks: false }),
            Err(e) => reply matches Err(error) && ApiError::answers_transaction_error(e, error),
        },
{
    match result {
        Ok(transaction) => Ok(CreationReply { status: 201, transaction, queue_webhooks: true }),
        Err(TransactionError::DuplicateIdempotencyKey(existing)) => Ok(
            CreationReply { status: 200, transaction: existing, queue_webhooks: false },
        ),
        Err(e) => Err(ApiError::from(e)),
    }
}

} // verus!
