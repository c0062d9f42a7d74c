//! Executor vocabulary: how tasks are scheduled and driven.
use vstd::prelude::*;
use crate::uci::{Budget, KernelError, TaskToken};

verus! {

/// Outcome of running one task token.
#[derive(Debug, Clone, Copy, PartialEq, Eq)]
pub enum RunStatus {
    Done,
    Resubmit,
    Backpressured,
    Closed,
}

/// Runs the work behind a task token.
pub trait TaskRunner {
    fn run_token(&mut self, token: TaskToken) -> RunStatus;
}

/// A backend that queues task tokens and drives them through a runner.
pub trait Executor {
    fn submit(&mut self, token: TaskToken, prio: u8) -> Result<(), KernelError>;

    fn drive<R: TaskRunner>(&mut self, runner: &mut R, budget: Budget) -> Result<(), KernelError>;
}

/// Convenience for stubs: always `Err(Unsupported)`.
pub fn unsupported<T>() -> (r: Result<T, KernelError>)
    ensures
        r matches Err(KernelError::Unsupported),
{
    Err(KernelError::Unsupported)
}

} // verus!
