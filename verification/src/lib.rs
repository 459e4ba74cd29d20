//! Accounts, transactions and signed webhooks for businesses that authenticate
//! with API keys: the rules of the service, each stated and proved.
pub mod api;
pub mod clock;
pub mod crypto;
pub mod encoding;
pub mod models;
pub mod observability;
pub mod services;
pub mod webhooks;
