//! Webhook endpoints, their deliveries and the payload they receive.
use vstd::prelude::*;
use vstd::string::*;

verus! {

/// Where a delivery is.
#[derive(Clone, Copy, Debug, PartialEq, Eq, Structural)]
pub enum WebhookDeliveryStatus {
    Pending,
    Success,
    Failed,
}

/// A registered webhook endpoint.
#[derive(Debug, Clone)]
pub struct Webhook {
    pub id: u128,
    pub api_key_id: u128,
    pub url: String,
    /// The HMAC signing key.
    pub secret: String,
    pub events: Vec<String>,
    pub is_active: bool,
    pub created_at: i64,
    pub updated_at: i64,
}

/// What `validator`'s URL check (`url::Url::parse` succeeding) makes of a text.
pub uninterp spec fn url_accepted(text: Seq<char>) -> bool;

/// `validator::ValidateUrl::validate_url`: true when `url::Url::parse`
/// accepts the text. Claimed: the result is `url_accepted(text)`.
#[verifier::external_body]
pub(crate) fn is_valid_url(text: &str) -> (valid: bool)
    ensures
        valid == url_accepted(text@),
{
    validator::ValidateUrl::validate_url(text)
}

/// A request to register a webhook.
#[derive(Debug)]
pub struct CreateWebhook {
    pub url: String,
    pub events: Vec<String>,
}

impl CreateWebhook {
    /// The field rules: the URL parses and has at most 2048 characters.
    pub open spec fn is_valid(&self) -> bool {
        url_accepted(self.url@) && self.url@.len() <= 2048
    }

    /// Field validation. The error names the field and lists its failed
    /// rules, the length rule first: "url: URL must be at most 2048
    /// characters", "url: Invalid URL format", or both, separated by ", ".
    pub fn validate(&self) -> (result: Result<(), String>)
        ensures
            result is Ok <==> self.is_valid(),
            result matches Err(message) ==> message@ == if !url_accepted(self.url@) {
                if self.url@.len() <= 2048 {
                    "url: Invalid URL format"@
                } else {
                    "url: URL must be at most 2048 characters, Invalid URL format"@
                }
            } else {
                "url: URL must be at most 2048 characters"@
            },
    {
        let parses = is_valid_url(self.url.as_str());
        let short = self.url.as_str().unicode_len() <= 2048;
        if parses && short {
            Ok(())
        } else if !parses && short {
            Err(String::from_str("url: Invalid URL format"))
        } else if !parses {
            Err(String::from_str("url: URL must be at most 2048 characters, Invalid URL format"))
        } else {
            Err(String::from_str("url: URL must be at most 2048 characters"))
        }
    }
}

/// The events a webhook subscribes to when none are named.
pub fn default_events() -> (events: Vec<String>)
    ensures
        events@.len() == 2,
        events@[0]@ == "transaction.completed"@,
        events@[1]@ == "transaction.failed"@,
{
    let mut events = Vec::new();
    events.push(String::from_str("transaction.completed"));
    events.push(String::from_str("transaction.failed"));
    events
}

/// A delivery of one transaction's event to one webhook.
#[derive(Debug, Clone)]
pub struct WebhookDelivery {
    pub id: u128,
    pub webhook_id: u128,
    pub transaction_id: u128,
    pub status: WebhookDeliveryStatus,
    pub retry_count: i32,
    pub last_error: Option<String>,
    pub last_response_code: Option<i32>,
    pub next_retry_at: Option<i64>,
    pub created_at: i64,
    pub delivered_at: Option<i64>,
}

/// A webhook as the API shows it: without its secret.
#[derive(Debug)]
pub struct WebhookResponse {
    pub id: u128,
    pub url: String,
    pub events: Vec<String>,
    pub is_active: bool,
    pub created_at: i64,
}

impl WebhookResponse {
    /// The API's view of a webhook: every field but the secret.
    pub fn from(webhook: Webhook) -> (response: WebhookResponse)
        ensures
            response == (WebhookResponse {
                id: webhook.id,
                url: webhook.url,
                events: webhook.events,
                is_active: webhook.is_active,
                created_at: webhook.created_at,
            }),
    {
        WebhookResponse {
            id: webhook.id,
            url: webhook.url,
            events: webhook.events,
            is_active: webhook.is_active,
            created_at: webhook.created_at,
        }
    }
}

/// Payload sent to webhook endpoints
#[derive(Debug)]
pub struct WebhookPayload {
    pub id: u128,
    pub event: String,
    pub created_at: i64,
    pub data: WebhookTransactionData,
}

#[derive(Debug)]
pub struct WebhookTransactionData {
    pub transaction_id: u128,
    /// The transaction's kind, lowercase.
    pub transaction_type: String,
    pub source_account_id: Option<u128>,
    pub destination_account_id: Option<u128>,
    pub amount_cents: i64,
    /// The transaction's status, lowercase.
    pub status: String,
    pub created_at: i64,
}

} // verus!
