//! The fixed shape of a driver tick: the per-tick caps, the order in which
//! the planned work is taken, and the limits of its other steps.
use vstd::prelude::*;
use crate::driver::schedule::ScheduleReason;
use crate::uci::Budget;

verus! {

/// Largest channel table the channel id encoding addresses.
pub const MAX_CHANNELS: usize = 0x10_0000;
/// Reads a READ task makes per call before yielding.
pub const MAX_READS_PER_CALL: usize = 8;
/// Draining channels flushed per tick.
pub const MAX_DRAINING_FLUSH_PER_TICK: usize = 64;
/// Channels given a flush on a new WRITE interest per tick.
pub const MAX_WRITE_KICK_PER_TICK: usize = 64;
/// Follow-up flushes after a budget-limited flush per tick.
pub const MAX_FLUSH_AGAIN_PER_TICK: usize = 64;
/// READ tasks re-submitted after a read pause lifts, per tick.
pub const MAX_READ_KICK_PER_TICK: usize = 64;
/// Priority every task is submitted with.
pub const TASK_PRIORITY: u8 = 128;
/// Number of phases of a tick's planned work.
pub const TICK_PHASES: usize = 6;

/// What the driver does for each channel taken in a phase of a tick.
#[derive(Debug, Clone, Copy, PartialEq, Eq)]
pub enum PhaseWork {
    /// Bring the reactor registration in line with the desired interest.
    SyncInterest,
    /// Tear the channel down and give its slot back.
    Reclaim,
    /// Flush the outbound buffer.
    Flush,
    /// Submit a READ task.
    SubmitRead,
}

/// Phase `i` of a tick's planned work: the reason whose queue is taken, at
/// most how many channels, and the work done for each. Interest sync and
/// reclaim are unbounded; the flushes and read kicks are capped.
pub open spec fn tick_phase_spec(i: int) -> Option<(ScheduleReason, usize, PhaseWork)> {
    if i == 0 {
        Some((ScheduleReason::InterestSync, usize::MAX, PhaseWork::SyncInterest))
    } else if i == 1 {
        Some((ScheduleReason::Reclaim, usize::MAX, PhaseWork::Reclaim))
    } else if i == 2 {
        Some((ScheduleReason::DrainingFlush, MAX_DRAINING_FLUSH_PER_TICK, PhaseWork::Flush))
    } else if i == 3 {
        Some((ScheduleReason::WriteKick, MAX_WRITE_KICK_PER_TICK, PhaseWork::Flush))
    } else if i == 4 {
        Some((ScheduleReason::FlushFollowup, MAX_FLUSH_AGAIN_PER_TICK, PhaseWork::Flush))
    } else if i == 5 {
        Some((ScheduleReason::ReadKick, MAX_READ_KICK_PER_TICK, PhaseWork::SubmitRead))
    } else {
        None
    }
}

/// Phase `i` of a tick's planned work, `None` past the last.
pub fn tick_phase(i: usize) -> (r: Option<(ScheduleReason, usize, PhaseWork)>)
    ensures
        r == tick_phase_spec(i as int),
{
    if i == 0 {
        Some((ScheduleReason::InterestSync, usize::MAX, PhaseWork::SyncInterest))
    } else if i == 1 {
        Some((ScheduleReason::Reclaim, usize::MAX, PhaseWork::Reclaim))
    } else if i == 2 {
        Some((ScheduleReason::DrainingFlush, MAX_DRAINING_FLUSH_PER_TICK, PhaseWork::Flush))
    } else if i == 3 {
        Some((ScheduleReason::WriteKick, MAX_WRITE_KICK_PER_TICK, PhaseWork::Flush))
    } else if i == 4 {
        Some((ScheduleReason::FlushFollowup, MAX_FLUSH_AGAIN_PER_TICK, PhaseWork::Flush))
    } else if i == 5 {
        Some((ScheduleReason::ReadKick, MAX_READ_KICK_PER_TICK, PhaseWork::SubmitRead))
    } else {
        None
    }
}

/// How many woken tasks a tick re-submits: the event budget, at least one.
pub fn wake_drain_limit(budget: Budget) -> (n: usize)
    ensures
        n == (if budget.max_events < 1 { 1 } else { budget.max_events as int }),
{
    if budget.max_events < 1 {
        1
    } else {
        budget.max_events as usize
    }
}

/// The phase of a tick that takes `reason`'s queue.
pub open spec fn phase_of(reason: ScheduleReason) -> int {
    match reason {
        ScheduleReason::InterestSync => 0,
        ScheduleReason::Reclaim => 1,
        ScheduleReason::DrainingFlush => 2,
        ScheduleReason::WriteKick => 3,
        ScheduleReason::FlushFollowup => 4,
        ScheduleReason::ReadKick => 5,
    }
}

/// A tick takes each reason's queue exactly once, in one of its
/// `TICK_PHASES` phases, and syncs interest before it reclaims.
pub proof fn lemma_tick_phases()
    ensures
        forall|i: int| 0 <= i < TICK_PHASES <==> #[trigger] tick_phase_spec(i) is Some,
        forall|i: int, j: int|
            0 <= i < TICK_PHASES && 0 <= j < TICK_PHASES && i != j
                ==> (#[trigger] tick_phase_spec(i)).unwrap().0 != (#[trigger] tick_phase_spec(j)).unwrap().0,
        forall|reason: ScheduleReason|
            0 <= #[trigger] phase_of(reason) < TICK_PHASES && tick_phase_spec(phase_of(reason)).unwrap().0 == reason,
        phase_of(ScheduleReason::InterestSync) < phase_of(ScheduleReason::Reclaim),
{
}

} // verus!
