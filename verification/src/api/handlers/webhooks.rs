//! Registering and removing webhooks through the API.
use vstd::prelude::*;
use crate::api::errors::ApiError;
use crate::encoding::uuid_text;
use crate::models::webhook::Webhook;

verus! {

/// A webhook just registered, with its secret: the only time it is shown.
#[derive(Debug)]
pub struct WebhookWithSecretResponse {
    pub id: u128,
    pub url: String,
    pub secret: String,
    pub events: Vec<String>,
    pub is_active: bool,
}

impl WebhookWithSecretResponse {
    /// The answer to a registration: the webhook with its secret.
    pub fn from(webhook: Webhook) -> (response: WebhookWithSecretResponse)
        ensures
            response == (WebhookWithSecretResponse {
                id: webhook.id,
                url: webhook.url,
                secret: webhook.secret,
                events: webhook.events,
                is_active: webhook.is_active,
            }),
    {
        WebhookWithSecretResponse {
            id: webhook.id,
            url: webhook.url,
            secret: webhook.secret,
            events: webhook.events,
            is_active: webhook.is_active,
        }
    }
}

/// The answer to a deletion: 204 when a webhook of the caller was
/// deactivated, else not found.
pub fn deletion_reply(deleted: bool, webhook_id: u128) -> (reply: Result<u16, ApiError>)
    ensures
        deleted ==> reply == Ok::<u16, ApiError>(204),
        !deleted ==> (reply matches Err(ApiError::NotFound(m)) && m@ == "Webhook "@ + uuid_text(webhook_id)
            + " not found"@),
{
    if deleted {
        Ok(204)
    } else {
        Err(ApiError::webhook_not_found(webhook_id))
    }
}

} // verus!
