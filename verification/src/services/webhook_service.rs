//! Webhook registration secrets, the events a transaction raises, delivery
//! bookkeeping and the payload sent to endpoints.
use vstd::prelude::*;
use vstd::string::*;
use crate::clock::{now_micros, CLOCK_LIMIT_MICROS};
use crate::crypto::{is_random_uuid, new_uuid_v4, random_bytes};
use crate::encoding::{encode_hex, hex_lower};
use crate::models::transaction::{Transaction, TransactionStatus};
use crate::models::webhook::{Webhook, WebhookDelivery, WebhookDeliveryStatus, WebhookPayload, WebhookTransactionData};

verus! {

pub struct WebhookService;

/// The event a transaction in this status raises: "transaction.completed"
/// or "transaction.failed"; a pending transaction raises none.
pub open spec fn event_name(status: TransactionStatus) -> Option<Seq<char>> {
    match status {
        TransactionStatus::Completed => Some("transaction.completed"@),
        TransactionStatus::Failed => Some("transaction.failed"@),
        TransactionStatus::Pending => None,
    }
}

impl WebhookService {
    /// A new signing secret: the lowercase hexadecimal text of 32 random
    /// bytes.
    pub fn generate_secret() -> (secret: String)
        ensures
            exists|bytes: Seq<u8>| bytes.len() == 32 && secret@ == hex_lower(bytes),
    {
        let bytes = random_bytes();
        let secret = encode_hex(bytes.as_slice());
        assert(bytes@.len() == 32);
        secret
    }

    /// The event a transaction raises, if any.
    pub fn event_for(status: TransactionStatus) -> (event: Option<&'static str>)
        ensures
            match event {
                Some(e) => event_name(status) == Some(e@),
                None => event_name(status) is None,
            },
    {
        match status {
            TransactionStatus::Completed => Some("transaction.completed"),
            TransactionStatus::Failed => Some("transaction.failed"),
            TransactionStatus::Pending => None,
        }
    }

    /// When a delivery counts as delivered: now, for a success; not at all
    /// otherwise (the stored time is then kept).
    pub fn delivered_at(status: WebhookDeliveryStatus) -> (at: Option<i64>)
        ensures
            status == WebhookDeliveryStatus::Success <==> at is Some,
            at matches Some(t) ==> -CLOCK_LIMIT_MICROS <= t <= CLOCK_LIMIT_MICROS,
    {
        if status == WebhookDeliveryStatus::Success {
            Some(now_micros())
        } else {
            None
        }
    }

    /// A pending delivery goes out only with its webhook (still active) and
    /// its transaction found: the three together, or nothing.
    pub fn ready_delivery(
        delivery: WebhookDelivery,
        webhook: Option<Webhook>,
        transaction: Option<Transaction>,
    ) -> (ready: Option<(WebhookDelivery, Webhook, Transaction)>)
        ensures
            ready is Some <==> webhook is Some && transaction is Some,
            ready matches Some(t) ==> t == (delivery, webhook->0, transaction->0),
    {
        match (webhook, transaction) {
            (Some(w), Some(t)) => Some((delivery, w, t)),
            _ => None,
        }
    }

    /// The payload for a transaction's event, with the given id and creation
    /// time: the transaction's id, kind and status (lowercase), accounts,
    /// amount and creation time.
    pub fn payload_at(transaction: &Transaction, event: &str, id: u128, created_at: i64) -> (payload: WebhookPayload)
        ensures
            payload.id == id,
            payload.event@ == event@,
            payload.created_at == created_at,
            payload.data.transaction_id == transaction.id,
            payload.data.transaction_type@ == transaction.transaction_type.name(),
            payload.data.source_account_id == transaction.source_account_id,
            payload.data.destination_account_id == transaction.destination_account_id,
            payload.data.amount_cents == transaction.amount_cents,
            payload.data.status@ == transaction.status.name(),
            payload.data.created_at == transaction.created_at,
    {
        WebhookPayload {
            id,
            event: String::from_str(event),
            created_at,
            data: WebhookTransactionData {
                transaction_id: transaction.id,
                transaction_type: String::from_str(transaction.transaction_type.as_str()),
                source_account_id: transaction.source_account_id,
                destination_account_id: transaction.destination_account_id,
                amount_cents: transaction.amount_cents,
                status: String::from_str(transaction.status.as_str()),
                created_at: transaction.created_at,
            },
        }
    }

    /// Build webhook payload from transaction: a fresh random (version 4)
    /// id, stamped with the current time.
    pub fn build_payload(transaction: &Transaction, event: &str) -> (payload: WebhookPayload)
        ensures
            is_random_uuid(payload.id),
            -CLOCK_LIMIT_MICROS <= payload.created_at <= CLOCK_LIMIT_MICROS,
            payload.event@ == event@,
            payload.data.transaction_id == transaction.id,
            payload.data.transaction_type@ == transaction.transaction_type.name(),
            payload.data.source_account_id == transaction.source_account_id,
            payload.data.destination_account_id == transaction.destination_account_id,
            payload.data.amount_cents == transaction.amount_cents,
            payload.data.status@ == transaction.status.name(),
            payload.data.created_at == transaction.created_at,
    {
        let id = new_uuid_v4();
        let created_at = now_micros();
        WebhookService::payload_at(transaction, event, id, created_at)
    }
}

} // verus!
