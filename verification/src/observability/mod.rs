//! Telemetry setup.
pub mod telemetry;
