//! The decisions of a driver task: one task token reads a channel, polls
//! its application calls, and finishes, parks or closes the channel.
use vstd::prelude::*;
use crate::uci::KernelError;
use crate::executor::RunStatus;

verus! {

/// Steps one task token may take before it is parked.
pub const MAX_TASK_STEPS: usize = 3;

/// Where a task step stands when it decides.
#[derive(Debug, Clone, Copy, PartialEq, Eq)]
pub enum TaskStage {
    /// A step in the read stage begins.
    Start,
    /// The read loop ran and ended with this outcome.
    AfterRead(Result<(), KernelError>),
    /// An application call was polled and is still pending.
    Pending,
    /// An application call completed (its result is delivered when the
    /// channel is live).
    Completed,
}

/// What the task does next.
#[derive(Debug, Clone, Copy, PartialEq, Eq)]
pub enum TaskAction {
    /// The channel is gone: finish the task and report it closed.
    Gone,
    /// Close the channel with this error, finish, and report it closed.
    CloseWithError(KernelError),
    /// Poll the next application call, in the next step.
    Poll,
    /// Run the read loop now.
    Read,
    /// Go back to the read stage, in the next step.
    Restart,
    /// Put the task back until its call wakes it.
    Park,
    /// Finish the task.
    Finish,
}

/// A task decision: the action, and whether the channel first enters
/// draining (closing once flushed).
#[derive(Debug, Clone, Copy, PartialEq, Eq)]
pub struct TaskDecision {
    pub action: TaskAction,
    pub enter_draining: bool,
}

/// The decision of one task step.
/// - Start: a missing channel is gone; a waiting call is polled, else the
///   channel is read.
/// - After a read: an error other than `WouldBlock` closes the channel; a
///   peer half-close on a channel not yet draining enters draining; a call
///   started by the read is polled, else the task finishes.
/// - A pending call parks the task.
/// - After a completed call: a missing channel is gone; the next call is
///   polled, else waiting requests send the task back to reading, else it
///   finishes.
pub open spec fn task_step_spec(
    stage: TaskStage,
    live: bool,
    peer_eof: bool,
    draining: bool,
    has_next: bool,
    has_backlog: bool,
) -> TaskDecision {
    match stage {
        TaskStage::Start => TaskDecision {
            action: if !live { TaskAction::Gone } else if has_next { TaskAction::Poll } else { TaskAction::Read },
            enter_draining: false,
        },
        TaskStage::AfterRead(Err(KernelError::WouldBlock)) | TaskStage::AfterRead(Ok(())) => TaskDecision {
            action: if has_next { TaskAction::Poll } else { TaskAction::Finish },
            enter_draining: peer_eof && !draining,
        },
        TaskStage::AfterRead(Err(e)) => TaskDecision { action: TaskAction::CloseWithError(e), enter_draining: false },
        TaskStage::Pending => TaskDecision { action: TaskAction::Park, enter_draining: false },
        TaskStage::Completed => TaskDecision {
            action: if !live {
                TaskAction::Gone
            } else if has_next {
                TaskAction::Poll
            } else if has_backlog {
                TaskAction::Restart
            } else {
                TaskAction::Finish
            },
            enter_draining: false,
        },
    }
}

/// Decide one task step; see `task_step_spec`.
pub fn task_step(
    stage: TaskStage,
    live: bool,
    peer_eof: bool,
    draining: bool,
    has_next: bool,
    has_backlog: bool,
) -> (d: TaskDecision)
    ensures
        d == task_step_spec(stage, live, peer_eof, draining, has_next, has_backlog),
{
    match stage {
        TaskStage::Start => {
            let action = if !live {
                TaskAction::Gone
            } else if has_next {
                TaskAction::Poll
            } else {
                TaskAction::Read
            };
            TaskDecision { action, enter_draining: false }
        },
        TaskStage::AfterRead(r) => match r {
            Err(KernelError::WouldBlock) | Ok(()) => TaskDecision {
                action: if has_next { TaskAction::Poll } else { TaskAction::Finish },
                enter_draining: peer_eof && !draining,
            },
            Err(e) => TaskDecision { action: TaskAction::CloseWithError(e), enter_draining: false },
        },
        TaskStage::Pending => TaskDecision { action: TaskAction::Park, enter_draining: false },
        TaskStage::Completed => {
            let action = if !live {
                TaskAction::Gone
            } else if has_next {
                TaskAction::Poll
            } else if has_backlog {
                TaskAction::Restart
            } else {
                TaskAction::Finish
            };
            TaskDecision { action, enter_draining: false }
        },
    }
}

/// After the read loop: an outcome that is not fatal (`Ok`, which a peer
/// half-close also ends with, or `WouldBlock`) enters draining exactly when
/// the peer has half-closed and the channel is not draining yet, and then
/// polls a waiting call or finishes; any other error closes the channel with
/// that error and never enters draining.
pub proof fn lemma_task_after_read(
    r: Result<(), KernelError>,
    live: bool,
    peer_eof: bool,
    draining: bool,
    has_next: bool,
    has_backlog: bool,
)
    ensures
        ({
            let d = task_step_spec(TaskStage::AfterRead(r), live, peer_eof, draining, has_next, has_backlog);
            &&& (r == Ok::<(), KernelError>(()) || r == Err::<(), KernelError>(KernelError::WouldBlock)) ==> {
                &&& d.enter_draining == (peer_eof && !draining)
                &&& has_next ==> d.action == TaskAction::Poll
                &&& !has_next ==> d.action == TaskAction::Finish
            }
            &&& (r matches Err(e) && e != KernelError::WouldBlock) ==> {
                &&& d.action == TaskAction::CloseWithError(r->Err_0)
                &&& !d.enter_draining
            }
        }),
{
}

/// Draining is entered only after a read, only on a peer half-close, and
/// only by a channel not yet draining.
pub proof fn lemma_task_drains_only_on_half_close(
    stage: TaskStage,
    live: bool,
    peer_eof: bool,
    draining: bool,
    has_next: bool,
    has_backlog: bool,
)
    ensures
        task_step_spec(stage, live, peer_eof, draining, has_next, has_backlog).enter_draining
            ==> stage is AfterRead && peer_eof && !draining,
{
}

/// The other stages: a step that begins or follows a completed call
/// reports a missing channel as gone; otherwise it polls a waiting call;
/// failing that, a beginning step reads, and a step after a completed call
/// goes back to reading when requests wait, else finishes. A pending call
/// parks the task. A channel is closed with an error only after a read.
pub proof fn lemma_task_other_stages(
    stage: TaskStage,
    live: bool,
    peer_eof: bool,
    draining: bool,
    has_next: bool,
    has_backlog: bool,
)
    ensures
        ({
            let d = task_step_spec(stage, live, peer_eof, draining, has_next, has_backlog);
            &&& (stage == TaskStage::Start || stage == TaskStage::Completed) && !live ==> d.action == TaskAction::Gone
            &&& (stage == TaskStage::Start || stage == TaskStage::Completed) && live && has_next
                ==> d.action == TaskAction::Poll
            &&& stage == TaskStage::Start && live && !has_next ==> d.action == TaskAction::Read
            &&& stage == TaskStage::Completed && live && !has_next && has_backlog ==> d.action == TaskAction::Restart
            &&& stage == TaskStage::Completed && live && !has_next && !has_backlog ==> d.action == TaskAction::Finish
            &&& stage == TaskStage::Pending ==> d.action == TaskAction::Park
            &&& d.action is CloseWithError ==> stage is AfterRead
            &&& d.action == TaskAction::Gone ==> !live
        }),
{
}

/// What a run of a task token reports when it stops with `action`: a gone
/// or closed channel is `Closed`, anything else `Done`.
pub open spec fn run_status_spec(action: TaskAction) -> RunStatus {
    match action {
        TaskAction::Gone | TaskAction::CloseWithError(_) => RunStatus::Closed,
        _ => RunStatus::Done,
    }
}

/// A run reports the channel closed exactly when it stopped because the
/// channel was gone or was closed with an error.
pub proof fn lemma_run_status_closed(action: TaskAction)
    ensures
        (run_status_spec(action) == RunStatus::Closed) == (action == TaskAction::Gone || action is CloseWithError),
        run_status_spec(action) != RunStatus::Closed ==> run_status_spec(action) == RunStatus::Done,
{
}

impl TaskAction {
    pub fn run_status(self) -> (s: RunStatus)
        ensures
            s == run_status_spec(self),
    {
        match self {
            TaskAction::Gone | TaskAction::CloseWithError(_) => RunStatus::Closed,
            _ => RunStatus::Done,
        }
    }
}

} // verus!
