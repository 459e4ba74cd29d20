//! The HTTP API's own rules: errors, authentication, rate limiting and the
//! shaping of requests and responses.
pub mod errors;
pub mod handlers;
pub mod middleware;
