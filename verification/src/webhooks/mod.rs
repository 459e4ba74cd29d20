//! Signing of webhook deliveries and the dispatcher's retry policy.
pub mod dispatcher;
pub mod signer;
