//! What runs before a handler: authentication and rate limiting.
pub mod auth;
pub mod rate_limit;
