//! The handlers' own decisions: pagination, validation and the answers they
//! give.
pub mod accounts;
pub mod transactions;
pub mod webhooks;
