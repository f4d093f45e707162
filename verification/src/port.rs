//! The single-slot handoff between one producer and one consumer.
//!
//! A port is either empty and not finished, holding exactly one batch, or
//! finished. There is never more than one pending batch per port: a producer
//! that tries to push onto an undrained port is rejected and keeps its batch,
//! which is how backpressure is enforced structurally rather than by buffering.

use vstd::prelude::*;
use crate::row::{DataBlock, Row};

verus! {

/// The shared state both ends of a port observe.
#[derive(Clone, Copy, PartialEq, Eq, Structural, Debug)]
pub enum PortState {
    /// No batch pending; the consumer has not yet asked for one.
    Empty,
    /// Exactly one batch is pending.
    HasData,
    /// No batch pending and the consumer is ready to accept one.
    NeedData,
    /// Terminal: no batch will ever cross this port again.
    Finished,
}

/// One data slot between exactly one producer output and one consumer input.
pub struct Port {
    /// The protocol state both sides observe.
    pub state: PortState,
    /// The in-flight batch; `Some` exactly when the state is `HasData`.
    pub slot: Option<DataBlock>,
    /// Distance of this port from the sink end of its pipeline, fixed at
    /// build time; the scheduler's progress measure decreases along it.
    pub depth: usize,
}

impl Port {
    /// The structural invariant: one pending batch exactly in `HasData`,
    /// none once finished, and a positive depth.
    pub open spec fn wf(self) -> bool {
        &&& (self.state is HasData) <==> (self.slot is Some)
        &&& self.depth >= 1
    }

    /// The rows currently pending on the port.
    pub open spec fn spec_rows(self) -> Seq<Row> {
        match self.slot {
            Some(b) => b.spec_rows(),
            None => Seq::<Row>::empty(),
        }
    }

    /// Makes a fresh, empty, unfinished port at the given depth.
    pub fn create(depth: usize) -> (r: Port)
        requires
            depth >= 1,
        ensures
            r.wf(),
            r.state is Empty,
            r.slot is None,
            r.depth == depth,
    {
        Port { state: PortState::Empty, slot: None, depth }
    }

    /// Whether a producer may push now.
    pub fn can_push(&self) -> (r: bool)
        ensures
            r == (self.state is Empty || self.state is NeedData),
    {
        match self.state {
            PortState::Empty => true,
            PortState::NeedData => true,
            _ => false,
        }
    }

    /// Whether a batch is pending.
    pub fn has_data(&self) -> (r: bool)
        ensures
            r == (self.state is HasData),
    {
        matches!(self.state, PortState::HasData)
    }

    /// Whether the port is finished.
    pub fn is_finished(&self) -> (r: bool)
        ensures
            r == (self.state is Finished),
    {
        matches!(self.state, PortState::Finished)
    }

    /// Producer side: push one batch. A push onto a port that still holds an
    /// unconsumed batch, or onto a finished port, is rejected; the caller
    /// keeps the batch, so no data is lost and no second batch is buffered.
    pub fn push(&mut self, block: DataBlock) -> (r: Result<(), DataBlock>)
        requires
            old(self).wf(),
        ensures
            final(self).wf(),
            final(self).depth == old(self).depth,
            old(self).state is HasData || old(self).state is Finished ==> {
                &&& r == Result::<(), DataBlock>::Err(block)
                &&& final(self).state == old(self).state
                &&& final(self).slot == old(self).slot
            },
            !(old(self).state is HasData) && !(old(self).state is Finished) ==> {
                &&& r is Ok
                &&& final(self).state is HasData
                &&& final(self).slot == Some(block)
            },
    {
        match self.state {
            PortState::HasData => Err(block),
            PortState::Finished => Err(block),
            _ => {
                self.slot = Some(block);
                self.state = PortState::HasData;
                Ok(())
            }
        }
    }

    /// Consumer side: pull the pending batch, if any. Pulling from a port
    /// without data returns nothing and changes nothing.
    pub fn pull(&mut self) -> (r: Option<DataBlock>)
        requires
            old(self).wf(),
        ensures
            final(self).wf(),
            final(self).depth == old(self).depth,
            old(self).state is HasData ==> {
                &&& r == old(self).slot
                &&& final(self).state is Empty
                &&& final(self).slot is None
            },
            !(old(self).state is HasData) ==> {
                &&& r is None
                &&& final(self).state == old(self).state
                &&& final(self).slot == old(self).slot
            },
    {
        match self.state {
            PortState::HasData => {
                let b = self.slot.take();
                self.state = PortState::Empty;
                b
            }
            _ => None,
        }
    }

    /// Consumer side: signal readiness to accept a batch. Meaningful only on
    /// an empty port; in every other state the signal is a no-op.
    pub fn set_need_data(&mut self)
        requires
            old(self).wf(),
        ensures
            final(self).wf(),
            final(self).depth == old(self).depth,
            final(self).slot == old(self).slot,
            old(self).state is Empty ==> final(self).state is NeedData,
            !(old(self).state is Empty) ==> final(self).state == old(self).state,
    {
        if matches!(self.state, PortState::Empty) {
            self.state = PortState::NeedData;
        }
    }

    /// Either side: force the port to its terminal state. Idempotent. Any
    /// pending batch is dropped, which is the cancellation semantics; during
    /// an orderly run the engine only finishes drained ports.
    pub fn finish(&mut self)
        requires
            old(self).wf(),
        ensures
            final(self).wf(),
            final(self).depth == old(self).depth,
            final(self).state is Finished,
            final(self).slot is None,
    {
        self.state = PortState::Finished;
        self.slot = None;
    }
}

} // verus!
