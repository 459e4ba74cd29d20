//! The records the service keeps and the requests it accepts. Identifiers are
//! 128-bit UUID values; times are microseconds since the Unix epoch (UTC).
pub mod account;
pub mod api_key;
pub mod transaction;
pub mod webhook;
