//! Error taxonomy of the execution core.
//!
//! Construction errors are raised while a pipeline is assembled, before any
//! processor runs. Processor errors are raised by a failing step and abort
//! the run after cancellation. A deadlock is a graph whose unfinished
//! processors can none of them run: a defect of the graph, not of the data.

use vstd::prelude::*;

verus! {

/// An error surfaced by the execution core.
#[derive(Debug)]
pub enum EngineError {
    /// The pipeline was malformed before any thread started.
    Construction { message: String },
    /// A processor step failed; the offending processor is named.
    Processor { pid: usize, name: String, message: String },
    /// No unfinished processor can run and the graph is not finished.
    Deadlock,
    /// The run was cancelled from outside; not a data error.
    Cancelled,
}

impl EngineError {
    /// A short description of the error, usable by callers for diagnostics.
    pub fn describe(&self) -> (r: String)
        ensures
            self is Processor ==> r@ == self->Processor_message@,
            self is Construction ==> r@ == self->Construction_message@,
    {
        match self {
            EngineError::Construction { message } => message.clone(),
            EngineError::Processor { message, .. } => message.clone(),
            EngineError::Deadlock => String::from_str("deadlock: no runnable processor"),
            EngineError::Cancelled => String::from_str("cancelled"),
        }
    }
}

/// An error raised by the columnar-array and codec fragments.
#[derive(Debug)]
pub enum DataError {
    /// The data does not obey the format's own rules.
    OutOfSpec { message: String },
    /// An argument violates the called function's documented contract.
    InvalidArgument { message: String },
}

impl DataError {
    /// A short description of the error.
    pub fn describe(&self) -> (r: String)
        ensures
            self is OutOfSpec ==> r@ == self->OutOfSpec_message@,
            self is InvalidArgument ==> r@ == self->InvalidArgument_message@,
    {
        match self {
            DataError::OutOfSpec { message } => message.clone(),
            DataError::InvalidArgument { message } => message.clone(),
        }
    }
}

} // verus!
