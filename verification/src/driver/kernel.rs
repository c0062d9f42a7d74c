//! The driver's bookkeeping: channel-id allocation, slot occupancy, task
//! ownership, registered interests and the reason-keyed work queues.
//!
//! The driver loop owns the channels, the reactor and the executor; every
//! decision it takes about them goes through this kernel.
use vstd::prelude::*;
use crate::uci::{KernelError, TaskToken};
use crate::error_codes::{ERR_CHAN_SLOT_OCCUPIED, ERR_TASK_STATE_CONFLICT, ERR_FLUSH_UNKNOWN};
use crate::metrics::{DataPlaneMetrics, wrap_add, sat_sub, add_wrapping};
use crate::reactor::Interest;
use crate::outbound::buffer::{FlushStatus, WritabilityChange};
use crate::driver::schedule::{ScheduleReason, ScheduleSlotState, TaskSlotState, InterestSlotState,
    spec_chan_index, spec_chan_next_gen, chan_index, chan_pack, chan_next_gen, queue_reason_spec,
    queue_schedule_reason_on, registered_interest_on, update_registered_interest_on, task_is_inflight_on,
    task_inflight_spec, take_schedule_batch, batch_spec, take_task_token_on, take_token_spec,
    bind_task_token_on, bind_token_spec, clear_registered_interest_for, lemma_batch_bounds, reason_bit};

verus! {

/// Construction limits for the driver.
#[derive(Debug, Clone, Copy, PartialEq, Eq)]
pub struct DriverLimits {
    pub max_channels: usize,
    pub max_frame: usize,
}

/// Per-channel limits.
#[derive(Debug, Clone, Copy, PartialEq, Eq)]
pub struct ChannelLimits {
    pub max_frame: usize,
    pub high_watermark: usize,
    pub low_watermark: usize,
    pub max_pending_write_bytes: usize,
}

impl ChannelLimits {
    /// Limits with `max_frame` raised to at least 1.
    pub fn new(max_frame: usize, high_watermark: usize, low_watermark: usize, max_pending_write_bytes: usize) -> (l: Self)
        ensures
            l == (ChannelLimits {
                max_frame: if max_frame > 1 { max_frame } else { 1 },
                high_watermark,
                low_watermark,
                max_pending_write_bytes,
            }),
    {
        ChannelLimits {
            max_frame: if max_frame > 1 { max_frame } else { 1 },
            high_watermark,
            low_watermark,
            max_pending_write_bytes,
        }
    }
}

/// The counter bumped when work is queued for `reason`.
pub open spec fn record_enqueue_spec(m: DataPlaneMetrics, reason: ScheduleReason) -> DataPlaneMetrics {
    match reason {
        ScheduleReason::InterestSync => DataPlaneMetrics {
            driver_schedule_interest_sync_total: wrap_add(m.driver_schedule_interest_sync_total, 1),
            ..m
        },
        ScheduleReason::Reclaim => DataPlaneMetrics {
            driver_schedule_reclaim_total: wrap_add(m.driver_schedule_reclaim_total, 1),
            ..m
        },
        ScheduleReason::DrainingFlush => DataPlaneMetrics {
            driver_schedule_draining_flush_total: wrap_add(m.driver_schedule_draining_flush_total, 1),
            ..m
        },
        ScheduleReason::WriteKick => DataPlaneMetrics {
            driver_schedule_write_kick_total: wrap_add(m.driver_schedule_write_kick_total, 1),
            ..m
        },
        ScheduleReason::FlushFollowup => DataPlaneMetrics {
            driver_schedule_flush_followup_total: wrap_add(m.driver_schedule_flush_followup_total, 1),
            ..m
        },
        ScheduleReason::ReadKick => DataPlaneMetrics {
            driver_schedule_read_kick_total: wrap_add(m.driver_schedule_read_kick_total, 1),
            ..m
        },
    }
}

/// Count one enqueue of `reason`.
pub fn record_schedule_enqueue(metrics: &mut DataPlaneMetrics, reason: ScheduleReason)
    ensures
        *final(metrics) == record_enqueue_spec(*old(metrics), reason),
{
    match reason {
        ScheduleReason::InterestSync => {
            metrics.driver_schedule_interest_sync_total = add_wrapping(metrics.driver_schedule_interest_sync_total, 1);
        },
        ScheduleReason::Reclaim => {
            metrics.driver_schedule_reclaim_total = add_wrapping(metrics.driver_schedule_reclaim_total, 1);
        },
        ScheduleReason::DrainingFlush => {
            metrics.driver_schedule_draining_flush_total = add_wrapping(metrics.driver_schedule_draining_flush_total, 1);
        },
        ScheduleReason::WriteKick => {
            metrics.driver_schedule_write_kick_total = add_wrapping(metrics.driver_schedule_write_kick_total, 1);
        },
        ScheduleReason::FlushFollowup => {
            metrics.driver_schedule_flush_followup_total = add_wrapping(metrics.driver_schedule_flush_followup_total, 1);
        },
        ScheduleReason::ReadKick => {
            metrics.driver_schedule_read_kick_total = add_wrapping(metrics.driver_schedule_read_kick_total, 1);
        },
    }
}

/// The scheduling state: slot states and one queue per reason.
pub struct SchedView {
    pub states: Seq<ScheduleSlotState>,
    pub interest_sync: Seq<u32>,
    pub reclaim: Seq<u32>,
    pub draining_flush: Seq<u32>,
    pub write_kick: Seq<u32>,
    pub flush_followup: Seq<u32>,
    pub read_kick: Seq<u32>,
}

/// The queue of a reason.
pub open spec fn queue_of(v: SchedView, reason: ScheduleReason) -> Seq<u32> {
    match reason {
        ScheduleReason::InterestSync => v.interest_sync,
        ScheduleReason::Reclaim => v.reclaim,
        ScheduleReason::DrainingFlush => v.draining_flush,
        ScheduleReason::WriteKick => v.write_kick,
        ScheduleReason::FlushFollowup => v.flush_followup,
        ScheduleReason::ReadKick => v.read_kick,
    }
}

/// `v` with the queue of `reason` replaced.
pub open spec fn with_queue(v: SchedView, reason: ScheduleReason, q: Seq<u32>) -> SchedView {
    match reason {
        ScheduleReason::InterestSync => SchedView { interest_sync: q, ..v },
        ScheduleReason::Reclaim => SchedView { reclaim: q, ..v },
        ScheduleReason::DrainingFlush => SchedView { draining_flush: q, ..v },
        ScheduleReason::WriteKick => SchedView { write_kick: q, ..v },
        ScheduleReason::FlushFollowup => SchedView { flush_followup: q, ..v },
        ScheduleReason::ReadKick => SchedView { read_kick: q, ..v },
    }
}

/// Queueing `reason` for `chan_id`, counting the enqueue:
/// `(enqueued, view, metrics)`.
pub open spec fn queue_view_spec(v: SchedView, m: DataPlaneMetrics, reason: ScheduleReason, chan_id: u32)
    -> (bool, SchedView, DataPlaneMetrics)
{
    let q = queue_reason_spec(reason, v.states, queue_of(v, reason), chan_id);
    (
        q.0,
        with_queue(SchedView { states: q.1, ..v }, reason, q.2),
        if q.0 { record_enqueue_spec(m, reason) } else { m },
    )
}

/// Queueing only when `cond` holds.
pub open spec fn queue_if_spec(cond: bool, v: SchedView, m: DataPlaneMetrics, reason: ScheduleReason, chan_id: u32)
    -> (SchedView, DataPlaneMetrics)
{
    if cond {
        let r = queue_view_spec(v, m, reason, chan_id);
        (r.1, r.2)
    } else {
        (v, m)
    }
}

/// The work a tick plans for one live channel, given the interest it has
/// registered (`prev`) and the one it now wants (`desired`): re-register on
/// any change; a draining channel with WRITE interest gets a flush; another
/// channel gets a write kick when WRITE interest first appears; a channel
/// whose close was requested and that wants nothing is reclaimed.
pub open spec fn plan_spec(
    v: SchedView,
    m: DataPlaneMetrics,
    chan_id: u32,
    prev: Interest,
    desired: Interest,
    draining: bool,
    close_requested: bool,
) -> (SchedView, DataPlaneMetrics) {
    let s1 = queue_if_spec(desired != prev, v, m, ScheduleReason::InterestSync, chan_id);
    let wants_write = desired.bits() & 2 == 2;
    let had_write = prev.bits() & 2 == 2;
    let s2 = if draining {
        queue_if_spec(wants_write, s1.0, s1.1, ScheduleReason::DrainingFlush, chan_id)
    } else {
        queue_if_spec(wants_write && !had_write, s1.0, s1.1, ScheduleReason::WriteKick, chan_id)
    };
    queue_if_spec(close_requested && desired.bits() == 0, s2.0, s2.1, ScheduleReason::Reclaim, chan_id)
}

/// Whether `chan_id` already has `reason` pending in `v`.
pub open spec fn reason_pending(v: SchedView, reason: ScheduleReason, chan_id: u32) -> bool {
    let idx = spec_chan_index(chan_id);
    &&& idx < v.states.len()
    &&& v.states[idx].chan_id == Some(chan_id)
    &&& v.states[idx].pending_bits & reason_bit(reason) != 0
}

/// Queueing one reason leaves every other reason's queue alone and does not
/// make another reason pending.
proof fn lemma_queue_if_other(
    cond: bool,
    v: SchedView,
    m: DataPlaneMetrics,
    reason: ScheduleReason,
    other: ScheduleReason,
    chan_id: u32,
)
    requires
        reason != other,
    ensures
        queue_of(queue_if_spec(cond, v, m, reason, chan_id).0, other) == queue_of(v, other),
        queue_if_spec(cond, v, m, reason, chan_id).0.states.len() == v.states.len(),
        !reason_pending(v, other, chan_id) ==> !reason_pending(queue_if_spec(cond, v, m, reason, chan_id).0, other,
            chan_id),
{
    let idx = spec_chan_index(chan_id);
    let a = reason_bit(reason);
    let b = reason_bit(other);
    assert(a == 1 || a == 2 || a == 4 || a == 8 || a == 16 || a == 32);
    assert(b == 1 || b == 2 || b == 4 || b == 8 || b == 16 || b == 32);
    assert(a != b);
    if cond && idx < v.states.len() {
        let s = v.states[idx];
        let bits: u8 = if s.chan_id == Some(chan_id) { s.pending_bits } else { 0 };
        assert(forall|x: u8, y: u8, z: u8|
            #![trigger (x | y) & z]
            (y == 1 || y == 2 || y == 4 || y == 8 || y == 16 || y == 32)
            && (z == 1 || z == 2 || z == 4 || z == 8 || z == 16 || z == 32) && y != z && x & z == 0
            ==> (x | y) & z == 0) by (bit_vector);
        assert(0u8 & b == 0) by (bit_vector);
        assert(bits & b == 0 ==> (bits | a) & b == 0);
    }
}

/// Queueing a reason that is not pending pushes the channel onto its queue.
proof fn lemma_queue_if_pushes(cond: bool, v: SchedView, m: DataPlaneMetrics, reason: ScheduleReason, chan_id: u32)
    requires
        cond,
        spec_chan_index(chan_id) < v.states.len(),
        !reason_pending(v, reason, chan_id),
    ensures
        queue_of(queue_if_spec(cond, v, m, reason, chan_id).0, reason) == queue_of(v, reason).push(chan_id),
{
    assert(0u8 & reason_bit(reason) == 0) by (bit_vector);
}

/// What a tick plans for a live channel, reason by reason: interest is
/// re-synced only when the desired interest differs from the registered one;
/// a draining flush is queued only for a draining channel that wants to
/// write; a write kick only for a channel not draining whose WRITE interest
/// is new; a reclaim only once close was requested and nothing is wanted
/// any more (with anything still wanted, such as pending writes, the
/// reclaim queue is left as it was); the follow-up flush and read kick
/// queues are never touched. A reclaim whose conditions hold and that is not
/// pending yet is queued.
pub proof fn lemma_plan_queues(
    v: SchedView,
    m: DataPlaneMetrics,
    chan_id: u32,
    prev: Interest,
    desired: Interest,
    draining: bool,
    close_requested: bool,
)
    ensures
        ({
            let p = plan_spec(v, m, chan_id, prev, desired, draining, close_requested).0;
            let wants_write = desired.bits() & 2 == 2;
            let had_write = prev.bits() & 2 == 2;
            &&& !(close_requested && desired.bits() == 0) ==> p.reclaim == v.reclaim
            &&& desired == prev ==> p.interest_sync == v.interest_sync
            &&& !(draining && wants_write) ==> p.draining_flush == v.draining_flush
            &&& !(!draining && wants_write && !had_write) ==> p.write_kick == v.write_kick
            &&& p.flush_followup == v.flush_followup
            &&& p.read_kick == v.read_kick
            &&& close_requested && desired.bits() == 0 && spec_chan_index(chan_id) < v.states.len()
                && !reason_pending(v, ScheduleReason::Reclaim, chan_id) ==> p.reclaim == v.reclaim.push(chan_id)
        }),
{
    let s1 = queue_if_spec(desired != prev, v, m, ScheduleReason::InterestSync, chan_id);
    let wants_write = desired.bits() & 2 == 2;
    let had_write = prev.bits() & 2 == 2;
    lemma_queue_if_other(desired != prev, v, m, ScheduleReason::InterestSync, ScheduleReason::Reclaim, chan_id);
    lemma_queue_if_other(desired != prev, v, m, ScheduleReason::InterestSync, ScheduleReason::DrainingFlush, chan_id);
    lemma_queue_if_other(desired != prev, v, m, ScheduleReason::InterestSync, ScheduleReason::WriteKick, chan_id);
    lemma_queue_if_other(desired != prev, v, m, ScheduleReason::InterestSync, ScheduleReason::FlushFollowup, chan_id);
    lemma_queue_if_other(desired != prev, v, m, ScheduleReason::InterestSync, ScheduleReason::ReadKick, chan_id);
    let s2 = if draining {
        queue_if_spec(wants_write, s1.0, s1.1, ScheduleReason::DrainingFlush, chan_id)
    } else {
        queue_if_spec(wants_write && !had_write, s1.0, s1.1, ScheduleReason::WriteKick, chan_id)
    };
    let r2 = if draining { ScheduleReason::DrainingFlush } else { ScheduleReason::WriteKick };
    let c2 = if draining { wants_write } else { wants_write && !had_write };
    assert(s2 == queue_if_spec(c2, s1.0, s1.1, r2, chan_id));
    lemma_queue_if_other(c2, s1.0, s1.1, r2, ScheduleReason::Reclaim, chan_id);
    lemma_queue_if_other(c2, s1.0, s1.1, r2, ScheduleReason::InterestSync, chan_id);
    lemma_queue_if_other(c2, s1.0, s1.1, r2, ScheduleReason::FlushFollowup, chan_id);
    lemma_queue_if_other(c2, s1.0, s1.1, r2, ScheduleReason::ReadKick, chan_id);
    if draining {
        lemma_queue_if_other(c2, s1.0, s1.1, r2, ScheduleReason::WriteKick, chan_id);
    } else {
        lemma_queue_if_other(c2, s1.0, s1.1, r2, ScheduleReason::DrainingFlush, chan_id);
    }
    let c3 = close_requested && desired.bits() == 0;
    lemma_queue_if_other(c3, s2.0, s2.1, ScheduleReason::Reclaim, ScheduleReason::InterestSync, chan_id);
    lemma_queue_if_other(c3, s2.0, s2.1, ScheduleReason::Reclaim, ScheduleReason::DrainingFlush, chan_id);
    lemma_queue_if_other(c3, s2.0, s2.1, ScheduleReason::Reclaim, ScheduleReason::WriteKick, chan_id);
    lemma_queue_if_other(c3, s2.0, s2.1, ScheduleReason::Reclaim, ScheduleReason::FlushFollowup, chan_id);
    lemma_queue_if_other(c3, s2.0, s2.1, ScheduleReason::Reclaim, ScheduleReason::ReadKick, chan_id);
    if c3 && spec_chan_index(chan_id) < v.states.len() && !reason_pending(v, ScheduleReason::Reclaim, chan_id) {
        lemma_queue_if_pushes(c3, s2.0, s2.1, ScheduleReason::Reclaim, chan_id);
    }
}

/// What reclaiming a channel did: whether a deregistration is due, the
/// task token released (for the caller to free), and whether the slot was
/// emptied.
#[derive(Debug, Clone, Copy, PartialEq, Eq)]
pub struct ReclaimOutcome {
    pub deregister: bool,
    pub freed_token: Option<TaskToken>,
    pub dropped: bool,
}

/// The driver's slot bookkeeping.
#[derive(Debug)]
pub struct DriverKernel {
    free: Vec<u32>,
    slot_gen: Vec<u32>,
    installed: Vec<Option<u32>>,
    task_state: Vec<TaskSlotState>,
    interest_state: Vec<InterestSlotState>,
    schedule_state: Vec<ScheduleSlotState>,
    pending_flush: Vec<u32>,
    pending_read_kick: Vec<u32>,
    scratch_interest_sync: Vec<u32>,
    scratch_reclaim: Vec<u32>,
    scratch_draining_flush: Vec<u32>,
    scratch_write_kick: Vec<u32>,
}

impl DriverKernel {
    /// Number of channel slots.
    pub closed spec fn slots(&self) -> nat {
        self.installed@.len()
    }

    /// Free slot indices; the last one is allocated next.
    pub closed spec fn free_list(&self) -> Seq<u32> {
        self.free@
    }

    /// Generation the next channel id of each slot will carry.
    pub closed spec fn gens(&self) -> Seq<u32> {
        self.slot_gen@
    }

    /// The channel id installed in each slot.
    pub closed spec fn installed(&self) -> Seq<Option<u32>> {
        self.installed@
    }

    pub closed spec fn tasks(&self) -> Seq<TaskSlotState> {
        self.task_state@
    }

    pub closed spec fn interests(&self) -> Seq<InterestSlotState> {
        self.interest_state@
    }

    pub closed spec fn sched(&self) -> SchedView {
        SchedView {
            states: self.schedule_state@,
            interest_sync: self.scratch_interest_sync@,
            reclaim: self.scratch_reclaim@,
            draining_flush: self.scratch_draining_flush@,
            write_kick: self.scratch_write_kick@,
            flush_followup: self.pending_flush@,
            read_kick: self.pending_read_kick@,
        }
    }

    /// Per-slot tables agree in size, free indices address slots and an
    /// installed id lives in its own slot.
    pub closed spec fn wf(&self) -> bool {
        let n = self.installed@.len();
        &&& 1 <= n <= 0x10_0000
        &&& self.slot_gen@.len() == n
        &&& self.task_state@.len() == n
        &&& self.interest_state@.len() == n
        &&& self.schedule_state@.len() == n
        &&& forall|j: int| 0 <= j < self.free@.len() ==> (#[trigger] self.free@[j] as int) < n
        &&& forall|i: int| 0 <= i < n && #[trigger] self.installed@[i] is Some
            ==> spec_chan_index(self.installed@[i].unwrap()) == i
    }

    /// What well-formedness guarantees callers: between 1 and 2^20 slots,
    /// per-slot tables of that size, free indices that address slots, and
    /// installed ids that live in their own slot.
    pub proof fn lemma_wf_tables(&self)
        requires
            self.wf(),
        ensures
            1 <= self.slots() <= 0x10_0000,
            self.gens().len() == self.slots(),
            self.tasks().len() == self.slots(),
            self.interests().len() == self.slots(),
            self.sched().states.len() == self.slots(),
            forall|j: int| 0 <= j < self.free_list().len() ==> (#[trigger] self.free_list()[j] as int) < self.slots(),
            forall|i: int| 0 <= i < self.slots() && #[trigger] self.installed()[i] is Some
                ==> spec_chan_index(self.installed()[i].unwrap()) == i,
    {
    }

    /// A kernel for `max_channels` slots (at least one); indices are
    /// allocated ascending, every generation starts at 1.
    pub fn new(max_channels: usize) -> (k: Self)
        requires
            max_channels <= 0x10_0000,
        ensures
            k.wf(),
            k.slots() == (if max_channels > 1 { max_channels as nat } else { 1 }),
            forall|j: int| 0 <= j < k.free_list().len() ==> #[trigger] k.free_list()[j] as int
                == k.slots() - 1 - j,
            k.free_list().len() == k.slots(),
            forall|i: int| 0 <= i < k.slots() ==> #[trigger] k.gens()[i] == 1,
            forall|i: int| 0 <= i < k.slots() ==> #[trigger] k.installed()[i] is None,
            forall|i: int| 0 <= i < k.slots() ==> #[trigger] k.tasks()[i] == (TaskSlotState { chan_id: None, token: None }),
            forall|i: int| 0 <= i < k.slots() ==> (#[trigger] k.interests()[i]).chan_id is None,
            forall|i: int| 0 <= i < k.slots() ==> #[trigger] k.sched().states[i] == (ScheduleSlotState { chan_id: None, pending_bits: 0 }),
            k.sched().interest_sync.len() == 0,
            k.sched().reclaim.len() == 0,
            k.sched().draining_flush.len() == 0,
            k.sched().write_kick.len() == 0,
            k.sched().flush_followup.len() == 0,
            k.sched().read_kick.len() == 0,
    {
        let n = if max_channels > 1 { max_channels } else { 1 };
        let mut slot_gen: Vec<u32> = Vec::new();
        let mut installed: Vec<Option<u32>> = Vec::new();
        let mut task_state: Vec<TaskSlotState> = Vec::new();
        let mut interest_state: Vec<InterestSlotState> = Vec::new();
        let mut schedule_state: Vec<ScheduleSlotState> = Vec::new();
        let mut i: usize = 0;
        while i < n
            invariant
                i <= n <= 0x10_0000,
                slot_gen@.len() == i,
                installed@.len() == i,
                task_state@.len() == i,
                interest_state@.len() == i,
                schedule_state@.len() == i,
                forall|k: int| 0 <= k < i ==> #[trigger] slot_gen@[k] == 1,
                forall|k: int| 0 <= k < i ==> #[trigger] installed@[k] is None,
                forall|k: int| 0 <= k < i ==> #[trigger] task_state@[k] == (TaskSlotState { chan_id: None, token: None }),
                forall|k: int| 0 <= k < i ==> (#[trigger] interest_state@[k]).chan_id is None,
                forall|k: int| 0 <= k < i ==> #[trigger] schedule_state@[k] == (ScheduleSlotState { chan_id: None, pending_bits: 0 }),
            decreases n - i,
        {
            slot_gen.push(1);
            installed.push(None);
            task_state.push(TaskSlotState::default());
            interest_state.push(InterestSlotState::default());
            schedule_state.push(ScheduleSlotState::default());
            i = i + 1;
        }
        let mut free: Vec<u32> = Vec::new();
        let mut k: usize = n;
        while k > 0
            invariant
                k <= n <= 0x10_0000,
                free@.len() == n - k,
                forall|j: int| 0 <= j < free@.len() ==> #[trigger] free@[j] as int == n - 1 - j,
            decreases k,
        {
            k = k - 1;
            free.push(k as u32);
        }
        DriverKernel {
            free,
            slot_gen,
            installed,
            task_state,
            interest_state,
            schedule_state,
            pending_flush: Vec::new(),
            pending_read_kick: Vec::new(),
            scratch_interest_sync: Vec::new(),
            scratch_reclaim: Vec::new(),
            scratch_draining_flush: Vec::new(),
            scratch_write_kick: Vec::new(),
        }
    }

    /// Allocate a channel id from the free list: the slot's current
    /// generation over the slot index; the slot's generation moves on.
    pub fn alloc_chan_id(&mut self) -> (r: Result<u32, KernelError>)
        requires
            old(self).wf(),
        ensures
            final(self).wf(),
            final(self).installed() == old(self).installed(),
            final(self).tasks() == old(self).tasks(),
            final(self).interests() == old(self).interests(),
            final(self).sched() == old(self).sched(),
            old(self).free_list().len() == 0 ==> r == Err::<u32, KernelError>(KernelError::NoMem)
                && final(self).free_list() == old(self).free_list() && final(self).gens() == old(self).gens(),
            old(self).free_list().len() > 0 ==> {
                let idx = old(self).free_list().last();
                let gen = old(self).gens()[idx as int];
                &&& r matches Ok(id) && id as int == (gen % 0x1000) as int * 0x10_0000 + idx as int
                &&& final(self).free_list() == old(self).free_list().drop_last()
                &&& final(self).gens() == old(self).gens().update(idx as int, spec_chan_next_gen(gen))
            },
    {
        let idx = match self.free.pop() {
            Some(i) => i,
            None => return Err(KernelError::NoMem),
        };
        proof {
            assert(old(self).free@[old(self).free@.len() - 1] == idx);
        }
        let i = idx as usize;
        let gen = self.slot_gen[i];
        self.slot_gen.set(i, chan_next_gen(gen));
        let id = chan_pack(idx, gen);
        proof {
            assert((idx as int) < 0x10_0000);
            assert(idx % 0x10_0000 == idx);
            assert forall|j: int| 0 <= j < self.free@.len() implies (#[trigger] self.free@[j] as int) < self.installed@.len() by {
                assert(self.free@[j] == old(self).free@[j]);
            }
        }
        Ok(id)
    }

    /// Return the slot of an id that was allocated but never installed to the
    /// free list (unless it is out of range, occupied or already free).
    pub fn release_uninstalled_chan_id(&mut self, chan_id: u32)
        requires
            old(self).wf(),
        ensures
            final(self).wf(),
            final(self).installed() == old(self).installed(),
            final(self).gens() == old(self).gens(),
            final(self).tasks() == old(self).tasks(),
            final(self).interests() == old(self).interests(),
            final(self).sched() == old(self).sched(),
            ({
                let idx = spec_chan_index(chan_id);
                if idx < old(self).slots() && old(self).installed()[idx] is None
                    && !old(self).free_list().contains(idx as u32) {
                    final(self).free_list() == old(self).free_list().push(idx as u32)
                } else {
                    final(self).free_list() == old(self).free_list()
                }
            }),
    {
        let idx = chan_index(chan_id);
        if idx >= self.installed.len() {
            return;
        }
        if self.installed[idx].is_some() {
            return;
        }
        let slot = idx as u32;
        let mut j: usize = 0;
        while j < self.free.len()
            invariant
                *self == *old(self),
                old(self).wf(),
                idx < self.installed@.len(),
                self.installed@[idx as int] is None,
                slot as int == idx,
                idx as int == spec_chan_index(chan_id),
                j <= self.free@.len(),
                forall|k: int| 0 <= k < j ==> #[trigger] self.free@[k] != slot,
            decreases self.free@.len() - j,
        {
            if self.free[j] == slot {
                proof { assert(self.free@.contains(slot)); }
                return;
            }
            j = j + 1;
        }
        self.free.push(slot);
        proof {
            assert forall|k: int| 0 <= k < self.free@.len() implies (#[trigger] self.free@[k] as int) < self.installed@.len() by {
                if k < old(self).free@.len() {
                    assert(self.free@[k] == old(self).free@[k]);
                }
            }
        }
    }

    /// Take a slot for `chan_id`: refused with `Invalid` out of range, with
    /// `ERR_CHAN_SLOT_OCCUPIED` when installed, and with
    /// `ERR_TASK_STATE_CONFLICT` when another generation still owns a task
    /// token there.
    pub fn install_slot(&mut self, chan_id: u32, metrics: &mut DataPlaneMetrics) -> (r: Result<(), KernelError>)
        requires
            old(self).wf(),
        ensures
            final(self).wf(),
            final(self).free_list() == old(self).free_list(),
            final(self).gens() == old(self).gens(),
            final(self).interests() == old(self).interests(),
            final(self).sched() == old(self).sched(),
            ({
                let idx = spec_chan_index(chan_id);
                if idx >= old(self).slots() {
                    r == Err::<(), KernelError>(KernelError::Invalid) && *final(self) == *old(self)
                        && *final(metrics) == *old(metrics)
                } else if old(self).installed()[idx] is Some {
                    r == Err::<(), KernelError>(KernelError::Internal(ERR_CHAN_SLOT_OCCUPIED))
                        && *final(self) == *old(self) && *final(metrics) == *old(metrics)
                } else if old(self).tasks()[idx].token is Some && old(self).tasks()[idx].chan_id != Some(chan_id) {
                    &&& r == Err::<(), KernelError>(KernelError::Internal(ERR_TASK_STATE_CONFLICT))
                    &&& *final(self) == *old(self)
                    &&& *final(metrics) == (DataPlaneMetrics {
                        driver_task_state_conflict_total: wrap_add(old(metrics).driver_task_state_conflict_total, 1),
                        ..*old(metrics)
                    })
                } else {
                    &&& r is Ok
                    &&& final(self).installed() == old(self).installed().update(idx, Some(chan_id))
                    &&& final(self).tasks() == old(self).tasks().update(idx, TaskSlotState { chan_id: Some(chan_id), token: None })
                    &&& *final(metrics) == (DataPlaneMetrics {
                        active_connections: wrap_add(old(metrics).active_connections, 1),
                        ..*old(metrics)
                    })
                }
            }),
    {
        let idx = chan_index(chan_id);
        if idx >= self.installed.len() {
            return Err(KernelError::Invalid);
        }
        if self.installed[idx].is_some() {
            return Err(KernelError::Internal(ERR_CHAN_SLOT_OCCUPIED));
        }
        let state = self.task_state[idx];
        let same = match state.chan_id {
            Some(c) => c == chan_id,
            None => false,
        };
        if state.token.is_some() && !same {
            metrics.driver_task_state_conflict_total = add_wrapping(metrics.driver_task_state_conflict_total, 1);
            return Err(KernelError::Internal(ERR_TASK_STATE_CONFLICT));
        }
        self.task_state.set(idx, TaskSlotState { chan_id: Some(chan_id), token: None });
        self.installed.set(idx, Some(chan_id));
        metrics.active_connections = add_wrapping(metrics.active_connections, 1);
        proof {
            assert forall|i: int| 0 <= i < self.installed@.len() && #[trigger] self.installed@[i] is Some
                implies spec_chan_index(self.installed@[i].unwrap()) == i by {
                if i != idx {
                    assert(self.installed@[i] == old(self).installed@[i]);
                }
            }
        }
        Ok(())
    }

    /// Whether `chan_id` is the channel installed in its slot.
    pub fn is_installed(&self, chan_id: u32) -> (r: bool)
        requires
            self.wf(),
        ensures
            r == (spec_chan_index(chan_id) < self.slots()
                && self.installed()[spec_chan_index(chan_id)] == Some(chan_id)),
    {
        let idx = chan_index(chan_id);
        if idx >= self.installed.len() {
            return false;
        }
        match self.installed[idx] {
            Some(c) => c == chan_id,
            None => false,
        }
    }

    /// A task token is bound for `chan_id`.
    pub fn task_inflight(&self, chan_id: u32) -> (r: bool)
        ensures
            r == task_inflight_spec(self.tasks(), chan_id),
    {
        task_is_inflight_on(self.task_state.as_slice(), chan_id)
    }

    /// The interest registered for `chan_id`.
    pub fn registered_interest(&self, chan_id: u32) -> (r: Interest)
        ensures
            ({
                let idx = spec_chan_index(chan_id);
                if idx < self.interests().len() && self.interests()[idx].chan_id == Some(chan_id) {
                    r == self.interests()[idx].interest
                } else {
                    r.bits() == 0
                }
            }),
    {
        registered_interest_on(self.interest_state.as_slice(), chan_id)
    }

    /// Record `interest` as registered for `chan_id`; `true` when a register
    /// call is due (counted as a registration, else as a skipped one).
    pub fn register_due(&mut self, chan_id: u32, interest: Interest, metrics: &mut DataPlaneMetrics) -> (r: bool)
        requires
            old(self).wf(),
        ensures
            final(self).wf(),
            final(self).free_list() == old(self).free_list(),
            final(self).gens() == old(self).gens(),
            final(self).installed() == old(self).installed(),
            final(self).tasks() == old(self).tasks(),
            final(self).sched() == old(self).sched(),
            ({
                let idx = spec_chan_index(chan_id);
                if idx < old(self).slots() {
                    &&& r == !(old(self).interests()[idx].chan_id == Some(chan_id)
                        && old(self).interests()[idx].interest == interest)
                    &&& final(self).interests() == old(self).interests().update(idx,
                        InterestSlotState { chan_id: Some(chan_id), interest })
                } else {
                    !r && final(self).interests() == old(self).interests()
                }
            }),
            *final(metrics) == (if r {
                DataPlaneMetrics {
                    driver_interest_register_total: wrap_add(old(metrics).driver_interest_register_total, 1),
                    ..*old(metrics)
                }
            } else {
                DataPlaneMetrics {
                    driver_interest_register_skipped_total: wrap_add(old(metrics).driver_interest_register_skipped_total, 1),
                    ..*old(metrics)
                }
            }),
    {
        let due = update_registered_interest_on(self.interest_state.as_mut_slice(), chan_id, interest);
        if due {
            metrics.driver_interest_register_total = add_wrapping(metrics.driver_interest_register_total, 1);
        } else {
            metrics.driver_interest_register_skipped_total = add_wrapping(metrics.driver_interest_register_skipped_total, 1);
        }
        due
    }

    /// Queue `reason` for `chan_id` (once per live generation), counting it.
    pub fn queue_schedule_reason(&mut self, reason: ScheduleReason, chan_id: u32, metrics: &mut DataPlaneMetrics) -> (r: bool)
        requires
            old(self).wf(),
        ensures
            final(self).wf(),
            final(self).free_list() == old(self).free_list(),
            final(self).gens() == old(self).gens(),
            final(self).installed() == old(self).installed(),
            final(self).tasks() == old(self).tasks(),
            final(self).interests() == old(self).interests(),
            r == queue_view_spec(old(self).sched(), *old(metrics), reason, chan_id).0,
            final(self).sched() == queue_view_spec(old(self).sched(), *old(metrics), reason, chan_id).1,
            *final(metrics) == queue_view_spec(old(self).sched(), *old(metrics), reason, chan_id).2,
    {
        let enqueued = match reason {
            ScheduleReason::InterestSync => queue_schedule_reason_on(reason, self.schedule_state.as_mut_slice(),
                &mut self.scratch_interest_sync, chan_id),
            ScheduleReason::Reclaim => queue_schedule_reason_on(reason, self.schedule_state.as_mut_slice(),
                &mut self.scratch_reclaim, chan_id),
            ScheduleReason::DrainingFlush => queue_schedule_reason_on(reason, self.schedule_state.as_mut_slice(),
                &mut self.scratch_draining_flush, chan_id),
            ScheduleReason::WriteKick => queue_schedule_reason_on(reason, self.schedule_state.as_mut_slice(),
                &mut self.scratch_write_kick, chan_id),
            ScheduleReason::FlushFollowup => queue_schedule_reason_on(reason, self.schedule_state.as_mut_slice(),
                &mut self.pending_flush, chan_id),
            ScheduleReason::ReadKick => queue_schedule_reason_on(reason, self.schedule_state.as_mut_slice(),
                &mut self.pending_read_kick, chan_id),
        };
        if enqueued {
            record_schedule_enqueue(metrics, reason);
        }
        enqueued
    }

    /// Plan one tick's work for a live channel from the interest it now
    /// wants; see `plan_spec`.
    pub fn plan_channel(
        &mut self,
        chan_id: u32,
        desired: Interest,
        draining: bool,
        close_requested: bool,
        metrics: &mut DataPlaneMetrics,
    )
        requires
            old(self).wf(),
        ensures
            final(self).wf(),
            final(self).free_list() == old(self).free_list(),
            final(self).gens() == old(self).gens(),
            final(self).installed() == old(self).installed(),
            final(self).tasks() == old(self).tasks(),
            final(self).interests() == old(self).interests(),
            ({
                let idx = spec_chan_index(chan_id);
                let prev = if idx < old(self).interests().len() && old(self).interests()[idx].chan_id == Some(chan_id) {
                    old(self).interests()[idx].interest
                } else {
                    Interest::spec_empty()
                };
                let p = plan_spec(old(self).sched(), *old(metrics), chan_id, prev, desired, draining, close_requested);
                final(self).sched() == p.0 && *final(metrics) == p.1
            }),
    {
        let prev = self.registered_interest(chan_id);
        proof {
            Interest::lemma_bits_eq(prev, Interest::spec_empty());
            Interest::lemma_spec_empty();
        }
        if desired != prev {
            self.queue_schedule_reason(ScheduleReason::InterestSync, chan_id, metrics);
        }
        let write = Interest::write();
        if draining {
            if desired.contains(write) {
                self.queue_schedule_reason(ScheduleReason::DrainingFlush, chan_id, metrics);
            }
        } else {
            if desired.contains(write) && !prev.contains(write) {
                self.queue_schedule_reason(ScheduleReason::WriteKick, chan_id, metrics);
            }
        }
        if close_requested && desired.is_empty() {
            self.queue_schedule_reason(ScheduleReason::Reclaim, chan_id, metrics);
        }
    }

    /// Take up to `max` live ids queued for `reason` (clearing that reason on
    /// their slots); stale ids are dropped and counted.
    pub fn take_batch(&mut self, reason: ScheduleReason, max: usize, metrics: &mut DataPlaneMetrics) -> (todo: Vec<u32>)
        requires
            old(self).wf(),
        ensures
            final(self).wf(),
            final(self).free_list() == old(self).free_list(),
            final(self).gens() == old(self).gens(),
            final(self).installed() == old(self).installed(),
            final(self).tasks() == old(self).tasks(),
            final(self).interests() == old(self).interests(),
            queue_of(old(self).sched(), reason).len() == 0 || max == 0 ==> {
                &&& todo@.len() == 0
                &&& final(self).sched() == old(self).sched()
                &&& *final(metrics) == *old(metrics)
            },
            queue_of(old(self).sched(), reason).len() > 0 && max > 0 ==> {
                let b = batch_spec(reason, old(self).sched().states, queue_of(old(self).sched(), reason), max as int);
                &&& todo@ == b.1
                &&& final(self).sched() == with_queue(SchedView { states: b.0, ..old(self).sched() }, reason, b.2)
                &&& *final(metrics) == (if b.3 > 0 {
                    DataPlaneMetrics {
                        driver_schedule_stale_skipped_total: wrap_add(old(metrics).driver_schedule_stale_skipped_total,
                            b.3 as u64),
                        ..*old(metrics)
                    }
                } else {
                    *old(metrics)
                })
            },
    {
        proof {
            lemma_batch_bounds(reason, self.sched().states, queue_of(self.sched(), reason), max as int);
        }
        let (todo, stale) = match reason {
            ScheduleReason::InterestSync => take_schedule_batch(reason, self.schedule_state.as_mut_slice(),
                &mut self.scratch_interest_sync, max),
            ScheduleReason::Reclaim => take_schedule_batch(reason, self.schedule_state.as_mut_slice(),
                &mut self.scratch_reclaim, max),
            ScheduleReason::DrainingFlush => take_schedule_batch(reason, self.schedule_state.as_mut_slice(),
                &mut self.scratch_draining_flush, max),
            ScheduleReason::WriteKick => take_schedule_batch(reason, self.schedule_state.as_mut_slice(),
                &mut self.scratch_write_kick, max),
            ScheduleReason::FlushFollowup => take_schedule_batch(reason, self.schedule_state.as_mut_slice(),
                &mut self.pending_flush, max),
            ScheduleReason::ReadKick => take_schedule_batch(reason, self.schedule_state.as_mut_slice(),
                &mut self.pending_read_kick, max),
        };
        if stale > 0 {
            metrics.driver_schedule_stale_skipped_total = add_wrapping(metrics.driver_schedule_stale_skipped_total, stale);
        }
        todo
    }

    /// Forget all queued reasons of `chan_id` (only for that generation).
    pub fn clear_schedule_state_for(&mut self, chan_id: u32)
        requires
            old(self).wf(),
        ensures
            final(self).wf(),
            final(self).free_list() == old(self).free_list(),
            final(self).gens() == old(self).gens(),
            final(self).installed() == old(self).installed(),
            final(self).tasks() == old(self).tasks(),
            final(self).interests() == old(self).interests(),
            ({
                let idx = spec_chan_index(chan_id);
                let v = old(self).sched();
                if idx < v.states.len() && v.states[idx].chan_id == Some(chan_id) {
                    final(self).sched() == SchedView {
                        states: v.states.update(idx, ScheduleSlotState { chan_id: None, pending_bits: 0 }),
                        ..v
                    }
                } else {
                    final(self).sched() == v
                }
            }),
    {
        let idx = chan_index(chan_id);
        if idx >= self.schedule_state.len() {
            return;
        }
        let state = self.schedule_state[idx];
        if let Some(c) = state.chan_id {
            if c == chan_id {
                self.schedule_state.set(idx, ScheduleSlotState::default());
            }
        }
    }

    /// Whether a READ task may be submitted for `chan_id`: not while one is
    /// in flight, not while reads are paused (each refusal is counted).
    pub fn gate_read_task(&self, chan_id: u32, paused: bool, metrics: &mut DataPlaneMetrics) -> (r: bool)
        ensures
            r == (!task_inflight_spec(self.tasks(), chan_id) && !paused),
            *final(metrics) == (if task_inflight_spec(self.tasks(), chan_id) {
                DataPlaneMetrics {
                    driver_task_submit_inflight_suppressed_total:
                        wrap_add(old(metrics).driver_task_submit_inflight_suppressed_total, 1),
                    ..*old(metrics)
                }
            } else if paused {
                DataPlaneMetrics {
                    driver_task_submit_paused_suppressed_total:
                        wrap_add(old(metrics).driver_task_submit_paused_suppressed_total, 1),
                    ..*old(metrics)
                }
            } else {
                *old(metrics)
            }),
    {
        if self.task_inflight(chan_id) {
            metrics.driver_task_submit_inflight_suppressed_total =
                add_wrapping(metrics.driver_task_submit_inflight_suppressed_total, 1);
            return false;
        }
        if paused {
            metrics.driver_task_submit_paused_suppressed_total =
                add_wrapping(metrics.driver_task_submit_paused_suppressed_total, 1);
            return false;
        }
        true
    }

    /// Count a new task and bind its token to `chan_id` before submission;
    /// a refused bind is counted as a task-state conflict (the caller then
    /// frees the token and fails with `ERR_TASK_STATE_CONFLICT`).
    pub fn bind_read_task(&mut self, chan_id: u32, tok: TaskToken, metrics: &mut DataPlaneMetrics) -> (r: bool)
        requires
            old(self).wf(),
        ensures
            final(self).wf(),
            final(self).free_list() == old(self).free_list(),
            final(self).gens() == old(self).gens(),
            final(self).installed() == old(self).installed(),
            final(self).interests() == old(self).interests(),
            final(self).sched() == old(self).sched(),
            r == bind_token_spec(old(self).tasks(), chan_id, tok).0,
            final(self).tasks() == bind_token_spec(old(self).tasks(), chan_id, tok).1,
            *final(metrics) == (if r {
                DataPlaneMetrics {
                    driver_task_submit_total: wrap_add(old(metrics).driver_task_submit_total, 1),
                    ..*old(metrics)
                }
            } else {
                DataPlaneMetrics {
                    driver_task_submit_total: wrap_add(old(metrics).driver_task_submit_total, 1),
                    driver_task_state_conflict_total: wrap_add(old(metrics).driver_task_state_conflict_total, 1),
                    ..*old(metrics)
                }
            }),
    {
        metrics.driver_task_submit_total = add_wrapping(metrics.driver_task_submit_total, 1);
        let ok = bind_task_token_on(self.task_state.as_mut_slice(), chan_id, tok);
        if !ok {
            metrics.driver_task_state_conflict_total = add_wrapping(metrics.driver_task_state_conflict_total, 1);
        }
        ok
    }

    /// A submission failed: count it and release the token bound to
    /// `chan_id` (returned for the caller to free).
    pub fn unbind_failed_task(&mut self, chan_id: u32, metrics: &mut DataPlaneMetrics) -> (r: Option<TaskToken>)
        requires
            old(self).wf(),
        ensures
            final(self).wf(),
            final(self).free_list() == old(self).free_list(),
            final(self).gens() == old(self).gens(),
            final(self).installed() == old(self).installed(),
            final(self).interests() == old(self).interests(),
            final(self).sched() == old(self).sched(),
            r == take_token_spec(old(self).tasks(), chan_id).0,
            final(self).tasks() == take_token_spec(old(self).tasks(), chan_id).1,
            *final(metrics) == (DataPlaneMetrics {
                driver_task_submit_failed_total: wrap_add(old(metrics).driver_task_submit_failed_total, 1),
                ..*old(metrics)
            }),
    {
        metrics.driver_task_submit_failed_total = add_wrapping(metrics.driver_task_submit_failed_total, 1);
        take_task_token_on(self.task_state.as_mut_slice(), chan_id)
    }

    /// A task finished: count it and release the token bound to `chan_id`
    /// (returned for the caller to free).
    pub fn finish_task(&mut self, chan_id: u32, metrics: &mut DataPlaneMetrics) -> (r: Option<TaskToken>)
        requires
            old(self).wf(),
        ensures
            final(self).wf(),
            final(self).free_list() == old(self).free_list(),
            final(self).gens() == old(self).gens(),
            final(self).installed() == old(self).installed(),
            final(self).interests() == old(self).interests(),
            final(self).sched() == old(self).sched(),
            r == take_token_spec(old(self).tasks(), chan_id).0,
            final(self).tasks() == take_token_spec(old(self).tasks(), chan_id).1,
            *final(metrics) == (DataPlaneMetrics {
                driver_task_finish_total: wrap_add(old(metrics).driver_task_finish_total, 1),
                ..*old(metrics)
            }),
    {
        let tok = take_task_token_on(self.task_state.as_mut_slice(), chan_id);
        metrics.driver_task_finish_total = add_wrapping(metrics.driver_task_finish_total, 1);
        tok
    }

    /// Reclaim `chan_id`: deregister it (if a register call is due), release
    /// its task token, and, if it is the channel installed in its slot, empty
    /// the slot, forget its queued work and interest, and free the index.
    /// Ids of other generations only lose what is keyed by themselves.
    pub fn reclaim(&mut self, chan_id: u32, metrics: &mut DataPlaneMetrics) -> (r: ReclaimOutcome)
        requires
            old(self).wf(),
        ensures
            final(self).wf(),
            final(self).gens() == old(self).gens(),
            final(self).tasks() == take_token_spec(old(self).tasks(), chan_id).1,
            r.freed_token == take_token_spec(old(self).tasks(), chan_id).0,
            ({
                let idx = spec_chan_index(chan_id);
                let n = old(self).slots();
                let oi = old(self).interests();
                let v = old(self).sched();
                if idx < n {
                    &&& r.deregister == !(oi[idx].chan_id == Some(chan_id) && oi[idx].interest.bits() == 0)
                    &&& r.dropped == (old(self).installed()[idx] == Some(chan_id))
                    &&& r.dropped ==> {
                        &&& final(self).installed() == old(self).installed().update(idx, None)
                        &&& final(self).free_list() == old(self).free_list().push(idx as u32)
                        &&& final(self).interests().len() == n
                        &&& final(self).interests()[idx].chan_id is None
                        &&& final(self).interests()[idx].interest.bits() == 0
                        &&& forall|j: int| 0 <= j < n && j != idx ==> #[trigger] final(self).interests()[j] == oi[j]
                        &&& final(self).sched() == (if v.states[idx].chan_id == Some(chan_id) {
                            SchedView { states: v.states.update(idx, ScheduleSlotState { chan_id: None, pending_bits: 0 }), ..v }
                        } else {
                            v
                        })
                    }
                    &&& !r.dropped ==> {
                        &&& final(self).installed() == old(self).installed()
                        &&& final(self).free_list() == old(self).free_list()
                        &&& final(self).sched() == v
                        &&& final(self).interests().len() == n
                        &&& final(self).interests()[idx].chan_id == Some(chan_id)
                        &&& final(self).interests()[idx].interest.bits() == 0
                        &&& forall|j: int| 0 <= j < n && j != idx ==> #[trigger] final(self).interests()[j] == oi[j]
                    }
                } else {
                    &&& !r.deregister
                    &&& !r.dropped
                    &&& final(self).installed() == old(self).installed()
                    &&& final(self).free_list() == old(self).free_list()
                    &&& final(self).sched() == v
                    &&& final(self).interests() == oi
                }
            }),
            *final(metrics) == reclaim_metrics_spec(*old(metrics), r.deregister, r.freed_token is Some, r.dropped),
    {
        let empty = Interest::empty();
        let deregister = self.register_due(chan_id, empty, metrics);
        proof {
            Interest::lemma_bits_eq(empty, self.interests()[spec_chan_index(chan_id)].interest);
            Interest::lemma_bits_eq(empty, old(self).interests()[spec_chan_index(chan_id)].interest);
        }
        let freed = take_task_token_on(self.task_state.as_mut_slice(), chan_id);
        if freed.is_some() {
            metrics.driver_task_reclaim_total = add_wrapping(metrics.driver_task_reclaim_total, 1);
        }
        let ghost m2 = *metrics;
        let idx = chan_index(chan_id);
        if idx >= self.installed.len() {
            return ReclaimOutcome { deregister, freed_token: freed, dropped: false };
        }
        let should_drop = match self.installed[idx] {
            Some(c) => c == chan_id,
            None => false,
        };
        if !should_drop {
            return ReclaimOutcome { deregister, freed_token: freed, dropped: false };
        }
        self.installed.set(idx, None);
        self.clear_schedule_state_for(chan_id);
        clear_registered_interest_for(self.interest_state.as_mut_slice(), chan_id);
        self.free.push(idx as u32);
        metrics.closed_total = add_wrapping(metrics.closed_total, 1);
        metrics.active_connections = metrics.active_connections.saturating_sub(1);
        proof {
            assert forall|i: int| 0 <= i < self.installed@.len() && #[trigger] self.installed@[i] is Some
                implies spec_chan_index(self.installed@[i].unwrap()) == i by {
                assert(self.installed@[i] == old(self).installed@[i]);
            }
            assert forall|k: int| 0 <= k < self.free@.len() implies (#[trigger] self.free@[k] as int) < self.installed@.len() by {
                if k < old(self).free@.len() {
                    assert(self.free@[k] == old(self).free@[k]);
                }
            }
        }
        ReclaimOutcome { deregister, freed_token: freed, dropped: true }
    }

    /// Account for a flush of `chan_id` (bytes and write calls) and its
    /// writability change; becoming writable queues a read kick. Returns
    /// whether a writability event is due.
    pub fn note_flush(
        &mut self,
        chan_id: u32,
        wrote: usize,
        syscalls: u64,
        writev_calls: u64,
        wc: WritabilityChange,
        metrics: &mut DataPlaneMetrics,
    ) -> (fire: bool)
        requires
            old(self).wf(),
        ensures
            final(self).wf(),
            final(self).free_list() == old(self).free_list(),
            final(self).gens() == old(self).gens(),
            final(self).installed() == old(self).installed(),
            final(self).tasks() == old(self).tasks(),
            final(self).interests() == old(self).interests(),
            fire == !(wc is Unchanged),
            ({
                let m1 = DataPlaneMetrics {
                    write_bytes_total: wrap_add(old(metrics).write_bytes_total, wrote as u64),
                    write_syscalls_total: wrap_add(old(metrics).write_syscalls_total, syscalls),
                    write_writev_calls_total: wrap_add(old(metrics).write_writev_calls_total, writev_calls),
                    ..*old(metrics)
                };
                if wc is BecameWritable {
                    let q = queue_view_spec(old(self).sched(), m1, ScheduleReason::ReadKick, chan_id);
                    final(self).sched() == q.1 && *final(metrics) == q.2
                } else {
                    final(self).sched() == old(self).sched() && *final(metrics) == m1
                }
            }),
    {
        metrics.record_write(wrote, syscalls, writev_calls);
        match wc {
            WritabilityChange::Unchanged => false,
            WritabilityChange::BecameUnwritable { .. } => true,
            WritabilityChange::BecameWritable { .. } => {
                self.queue_schedule_reason(ScheduleReason::ReadKick, chan_id, metrics);
                true
            },
        }
    }

    /// The driver's answer to a flush status: a budget-limited flush is
    /// counted and gets a follow-up; a closed channel is `Closed`; any other
    /// error is `ERR_FLUSH_UNKNOWN`.
    pub fn flush_status_result(&mut self, chan_id: u32, status: FlushStatus, metrics: &mut DataPlaneMetrics)
        -> (r: Result<(), KernelError>)
        requires
            old(self).wf(),
        ensures
            final(self).wf(),
            final(self).free_list() == old(self).free_list(),
            final(self).gens() == old(self).gens(),
            final(self).installed() == old(self).installed(),
            final(self).tasks() == old(self).tasks(),
            final(self).interests() == old(self).interests(),
            match status {
                FlushStatus::Drained | FlushStatus::WouldBlock => r is Ok && final(self).sched() == old(self).sched()
                    && *final(metrics) == *old(metrics),
                FlushStatus::Limited => {
                    let m1 = DataPlaneMetrics {
                        flush_limited_total: wrap_add(old(metrics).flush_limited_total, 1),
                        ..*old(metrics)
                    };
                    let q = queue_view_spec(old(self).sched(), m1, ScheduleReason::FlushFollowup, chan_id);
                    r is Ok && final(self).sched() == q.1 && *final(metrics) == q.2
                },
                FlushStatus::Closed => r == Err::<(), KernelError>(KernelError::Closed)
                    && final(self).sched() == old(self).sched() && *final(metrics) == *old(metrics),
                FlushStatus::Error => r == Err::<(), KernelError>(KernelError::Internal(ERR_FLUSH_UNKNOWN))
                    && final(self).sched() == old(self).sched() && *final(metrics) == *old(metrics),
            },
    {
        match status {
            FlushStatus::Drained | FlushStatus::WouldBlock => Ok(()),
            FlushStatus::Limited => {
                metrics.record_flush_limited();
                self.queue_schedule_reason(ScheduleReason::FlushFollowup, chan_id, metrics);
                Ok(())
            },
            FlushStatus::Closed => Err(KernelError::Closed),
            FlushStatus::Error => Err(KernelError::Internal(ERR_FLUSH_UNKNOWN)),
        }
    }
}

/// The counters touched by a reclaim.
pub open spec fn reclaim_metrics_spec(m: DataPlaneMetrics, deregister: bool, freed: bool, dropped: bool) -> DataPlaneMetrics {
    let m1 = if deregister {
        DataPlaneMetrics { driver_interest_register_total: wrap_add(m.driver_interest_register_total, 1), ..m }
    } else {
        DataPlaneMetrics {
            driver_interest_register_skipped_total: wrap_add(m.driver_interest_register_skipped_total, 1),
            ..m
        }
    };
    let m2 = if freed {
        DataPlaneMetrics { driver_task_reclaim_total: wrap_add(m1.driver_task_reclaim_total, 1), ..m1 }
    } else {
        m1
    };
    if dropped {
        DataPlaneMetrics {
            closed_total: wrap_add(m2.closed_total, 1),
            active_connections: sat_sub(m2.active_connections, 1),
            ..m2
        }
    } else {
        m2
    }
}

} // verus!