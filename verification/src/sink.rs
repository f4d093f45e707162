//! The control state of an asynchronous record sink.
//!
//! A sink that writes encoded batches to an asynchronous writer alternates
//! between accepting a record and driving an in-flight write to completion.
//! The decisions — when a record may be accepted, when the sink is ready,
//! how closing proceeds — are a state machine verified here; the encoding
//! and the awaiting of the writer are the driver's work, outside the
//! library.

use vstd::prelude::*;
use crate::error::DataError;

verus! {

/// The control state of the sink.
#[derive(Debug, Clone, Copy, PartialEq, Eq, Structural)]
pub enum SinkState {
    /// The header write is in flight; no record accepted yet.
    Starting,
    /// No write in flight; a record may be accepted.
    Ready,
    /// A record's write is in flight.
    Writing,
    /// The closing sequence (terminator, flush, close) is in flight.
    Closing,
    /// The writer is closed; no record will be accepted again.
    Closed,
    /// A write failed; the sink is unusable.
    Failed,
}

/// The outcome the driver observed of the in-flight task.
#[derive(Debug, Clone, Copy, PartialEq, Eq, Structural)]
pub enum TaskPoll {
    /// The task has not finished yet.
    Pending,
    /// The task finished and handed the writer back.
    Done,
    /// The task failed.
    Error,
}

/// Whether a state has a task in flight.
pub open spec fn spec_in_flight(s: SinkState) -> bool {
    s is Starting || s is Writing || s is Closing
}

/// Drives the in-flight task one observation further: a finished start or
/// write leaves the sink ready, a finished close leaves it closed, an error
/// is terminal, and a pending task changes nothing. A state with no task in
/// flight is already complete.
pub fn poll_complete(state: SinkState, outcome: TaskPoll) -> (r: SinkState)
    ensures
        !spec_in_flight(state) ==> r == state,
        spec_in_flight(state) && outcome is Pending ==> r == state,
        spec_in_flight(state) && outcome is Error ==> r is Failed,
        (state is Starting || state is Writing) && outcome is Done ==> r is Ready,
        state is Closing && outcome is Done ==> r is Closed,
{
    match state {
        SinkState::Starting | SinkState::Writing => match outcome {
            TaskPoll::Pending => state,
            TaskPoll::Done => SinkState::Ready,
            TaskPoll::Error => SinkState::Failed,
        },
        SinkState::Closing => match outcome {
            TaskPoll::Pending => state,
            TaskPoll::Done => SinkState::Closed,
            TaskPoll::Error => SinkState::Failed,
        },
        _ => state,
    }
}

/// Accepts one record for writing: only a ready sink may accept, and the
/// acceptance puts a write in flight. Feeding a closed or failed sink is an
/// error and changes nothing; feeding one with a task still in flight is a
/// driver defect and is rejected the same way.
pub fn start_send(state: SinkState) -> (r: Result<SinkState, DataError>)
    ensures
        state is Ready ==> (r matches Ok(s) && s is Writing),
        !(state is Ready) ==> (r matches Err(e) && e is OutOfSpec),
{
    match state {
        SinkState::Ready => Ok(SinkState::Writing),
        _ => Err(DataError::OutOfSpec { message: String::from_str("writer closed") }),
    }
}

/// Begins the closing sequence: a ready sink starts writing the stream
/// terminator; a sink that is already closed stays closed; a sink with a
/// task in flight must be driven to completion first and is left as it is.
pub fn poll_close(state: SinkState) -> (r: SinkState)
    ensures
        state is Ready ==> r is Closing,
        state is Closed ==> r is Closed,
        spec_in_flight(state) ==> r == state,
        state is Failed ==> r is Failed,
{
    match state {
        SinkState::Ready => SinkState::Closing,
        _ => state,
    }
}

} // verus!
