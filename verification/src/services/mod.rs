//! The decisions of the service layer. The store (a database) is outside:
//! these types say what to ask it next and what to make of its answers.
pub mod transaction_service;
pub mod webhook_service;
