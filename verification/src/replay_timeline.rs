//! The replay-facing vocabulary the stub shares with its engine: which
//! way logical time runs during a resume, and how eagerly the engine
//! should drop checkpoints along the timeline.

use vstd::prelude::*;

verus! {

/// The direction of logical time for a resume request.
#[derive(Copy, Clone, PartialEq, Eq, Structural, Debug)]
pub enum RunDirection {
    RunForward,
    RunBackward,
}

impl Default for RunDirection {
    fn default() -> (r: Self)
        ensures
            r == RunDirection::RunForward,
    {
        RunDirection::RunForward
    }
}

/// How densely the engine should place automatic checkpoints.
#[derive(Copy, Clone, PartialEq, Eq, Structural, Debug)]
pub enum CheckpointStrategy {
    /// Bound the overhead of checkpointing relative to forward execution.
    LowOverhead,
    /// Expect reverse execution to a nearby destination soon, so denser
    /// checkpoints pay for themselves.
    ExpectShortReverseExecution,
}

/// A rough measure of how far a session has replayed.
pub type Progress = u64;

} // verus!
