use vstd::prelude::*;

verus! {

/// Control message for a replica driver's cooperative shutdown.
pub enum Signal {
    Terminate,
}

/// What one non-blocking poll of the shutdown channel produced.
pub enum PollOutcome {
    Received(Signal),
    Empty,
    Disconnected,
}

/// Whether a replica driver must leave its loop, given what a poll of the
/// shutdown channel produced: on a terminate signal, and on a disconnected
/// channel, which is unrecoverable for the replica; an empty channel lets the
/// loop go on.
pub fn check_singals(outcome: &PollOutcome) -> (stop: bool)
    ensures
        stop == !(outcome matches PollOutcome::Empty),
{
    match outcome {
        PollOutcome::Received(Signal::Terminate) => true,
        PollOutcome::Empty => false,
        PollOutcome::Disconnected => true,
    }
}

} // verus!
