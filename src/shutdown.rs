//! The outcome of shutting the worker down: send the sentinel, then wait for
//! the worker to finish. Neither failure is swallowed.
use vstd::prelude::*;

verus! {

/// Why a shutdown did not complete cleanly.
#[derive(Debug, Clone, Copy, PartialEq, Eq, Structural)]
pub enum ShutdownError {
    /// The sentinel could not be sent: the worker had already gone.
    WorkerGone,
    /// The worker did not finish normally (it panicked or was cancelled).
    WorkerFailed,
}

/// Decides what `shutdown` reports from whether the sentinel was sent and
/// whether the worker finished normally. A failed send is reported first.
pub fn shutdown_outcome(sent: bool, joined: bool) -> (r: Result<(), ShutdownError>)
    ensures
        r is Ok <==> sent && joined,
        !sent ==> r == Err::<(), ShutdownError>(ShutdownError::WorkerGone),
        sent && !joined ==> r == Err::<(), ShutdownError>(ShutdownError::WorkerFailed),
{
    if !sent {
        Err(ShutdownError::WorkerGone)
    } else if !joined {
        Err(ShutdownError::WorkerFailed)
    } else {
        Ok(())
    }
}

} // verus!
