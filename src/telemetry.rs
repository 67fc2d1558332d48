use vstd::prelude::*;

use crate::error::HelixResult;

verus! {

/// What a failure to publish a telemetry event does to the operation that
/// emitted it.
#[derive(Clone, Copy, Debug, PartialEq, Eq, Structural)]
pub enum TelemetryFailure {
    /// The operation fails with the `Telemetry` error.
    Fatal,
    /// The failure is dropped and the operation's result stands.
    Ignored,
}

/// The outcome of emitting an event, given what the publish returned.
pub fn after_publish(published: HelixResult<()>, policy: TelemetryFailure) -> (r: HelixResult<()>)
    ensures
        r is Err <==> (published is Err && policy == TelemetryFailure::Fatal),
        r matches Err(e) ==> published matches Err(p) && e@ == p@,
{
    match published {
        Err(e) => match policy {
            TelemetryFailure::Fatal => Err(e),
            TelemetryFailure::Ignored => Ok(()),
        },
        Ok(()) => Ok(()),
    }
}

} // verus!
