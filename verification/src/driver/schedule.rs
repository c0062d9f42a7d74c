//! Driver scheduling kernel: generation-aware channel ids, per-slot
//! scheduling/task/interest state and the reason-keyed work queues.
use vstd::prelude::*;
use crate::uci::TaskToken;
use crate::reactor::Interest;

verus! {

/// Bits of a channel id that hold the slot index.
pub const CHAN_IDX_BITS: u32 = 20;
/// Mask of the slot index bits.
pub const CHAN_IDX_MASK: u32 = 0xF_FFFF;
/// Mask of the generation bits (applied before shifting).
pub const CHAN_GEN_MASK: u32 = 0xFFF;

/// The slot index of a channel id: its low 20 bits.
pub open spec fn spec_chan_index(chan_id: u32) -> int {
    (chan_id % 0x10_0000) as int
}

/// The generation of a channel id: its high 12 bits.
pub open spec fn spec_chan_gen(chan_id: u32) -> int {
    (chan_id / 0x10_0000) as int
}

/// Slot index of an encoded channel id.
pub fn chan_index(chan_id: u32) -> (r: usize)
    ensures
        r as int == spec_chan_index(chan_id),
{
    assert(chan_id & 0xF_FFFFu32 == chan_id % 0x10_0000u32) by (bit_vector);
    (chan_id & CHAN_IDX_MASK) as usize
}

/// Encode `(idx, gen)` into a channel id: generation (12 bits) above the
/// index (20 bits).
pub fn chan_pack(idx: u32, gen: u32) -> (r: u32)
    ensures
        r as int == (gen % 0x1000) as int * 0x10_0000 + (idx % 0x10_0000) as int,
{
    let r = ((gen & CHAN_GEN_MASK) << CHAN_IDX_BITS) | (idx & CHAN_IDX_MASK);
    assert(((gen & 0xFFFu32) << 20u32) | (idx & 0xF_FFFFu32)
        == (gen % 0x1000u32) * 0x10_0000u32 + idx % 0x10_0000u32) by (bit_vector);
    r
}

/// The generation after `gen`, modulo 12 bits, skipping 0.
pub open spec fn spec_chan_next_gen(gen: u32) -> u32 {
    if (gen as int + 1) % 0x1000 == 0 {
        1
    } else {
        ((gen as int + 1) % 0x1000) as u32
    }
}

pub fn chan_next_gen(gen: u32) -> (r: u32)
    ensures
        r == spec_chan_next_gen(gen),
{
    let mut g = gen.wrapping_add(1) & CHAN_GEN_MASK;
    assert(gen.wrapping_add(1) & 0xFFFu32 == ((gen as int + 1) % 0x1000) as u32) by (bit_vector);
    if g == 0 {
        g = 1;
    }
    g
}

/// Packing and unpacking round-trip on the index and generation bits.
pub proof fn lemma_chan_pack_roundtrip(idx: u32, gen: u32, id: u32)
    requires
        id as int == (gen % 0x1000) as int * 0x10_0000 + (idx % 0x10_0000) as int,
    ensures
        spec_chan_index(id) == idx % 0x10_0000,
        spec_chan_gen(id) == gen % 0x1000,
{
    assert(((gen % 0x1000) as int * 0x10_0000 + (idx % 0x10_0000) as int) % 0x10_0000 == (idx % 0x10_0000) as int)
        by (nonlinear_arith);
    assert(((gen % 0x1000) as int * 0x10_0000 + (idx % 0x10_0000) as int) / 0x10_0000 == (gen % 0x1000) as int)
        by (nonlinear_arith);
}

/// A reused slot always gets a new, non-zero generation.
pub proof fn lemma_next_gen_fresh(gen: u32)
    ensures
        spec_chan_next_gen(gen) != gen % 0x1000,
        1 <= spec_chan_next_gen(gen) < 0x1000,
{
}

/// Semantic buckets of driver-side work.
#[derive(Debug, Clone, Copy, PartialEq, Eq)]
pub enum ScheduleReason {
    InterestSync,
    Reclaim,
    DrainingFlush,
    WriteKick,
    FlushFollowup,
    ReadKick,
}

/// The pending-bit of each reason.
pub open spec fn reason_bit(reason: ScheduleReason) -> u8 {
    match reason {
        ScheduleReason::InterestSync => 1,
        ScheduleReason::Reclaim => 2,
        ScheduleReason::DrainingFlush => 4,
        ScheduleReason::WriteKick => 8,
        ScheduleReason::FlushFollowup => 16,
        ScheduleReason::ReadKick => 32,
    }
}

impl ScheduleReason {
    pub fn bit(self) -> (b: u8)
        ensures
            b == reason_bit(self),
    {
        match self {
            ScheduleReason::InterestSync => 1,
            ScheduleReason::Reclaim => 2,
            ScheduleReason::DrainingFlush => 4,
            ScheduleReason::WriteKick => 8,
            ScheduleReason::FlushFollowup => 16,
            ScheduleReason::ReadKick => 32,
        }
    }
}

/// Per-slot scheduling state for the live generation: which reasons are
/// already queued for `chan_id`.
#[derive(Debug, Clone, Copy, PartialEq, Eq)]
pub struct ScheduleSlotState {
    pub chan_id: Option<u32>,
    pub pending_bits: u8,
}

impl Default for ScheduleSlotState {
    fn default() -> (s: Self)
        ensures
            s == (ScheduleSlotState { chan_id: None, pending_bits: 0 }),
    {
        ScheduleSlotState { chan_id: None, pending_bits: 0 }
    }
}

/// Per-slot task ownership for the live generation: at most one task token.
#[derive(Debug, Clone, Copy, PartialEq, Eq)]
pub struct TaskSlotState {
    pub chan_id: Option<u32>,
    pub token: Option<TaskToken>,
}

impl Default for TaskSlotState {
    fn default() -> (s: Self)
        ensures
            s == (TaskSlotState { chan_id: None, token: None }),
    {
        TaskSlotState { chan_id: None, token: None }
    }
}

/// Per-slot cache of the reactor interest registered for the live generation.
#[derive(Debug, Clone, Copy, PartialEq, Eq)]
pub struct InterestSlotState {
    pub chan_id: Option<u32>,
    pub interest: Interest,
}

impl Default for InterestSlotState {
    fn default() -> (s: Self)
        ensures
            s.chan_id is None,
            s.interest.bits() == 0,
    {
        InterestSlotState { chan_id: None, interest: Interest::empty() }
    }
}

/// The interest registered for `chan_id` (empty when the slot is absent or
/// holds another generation).
pub fn registered_interest_on(interest_state: &[InterestSlotState], chan_id: u32) -> (r: Interest)
    ensures
        ({
            let idx = spec_chan_index(chan_id);
            if idx < interest_state@.len() && interest_state@[idx].chan_id == Some(chan_id) {
                r == interest_state@[idx].interest
            } else {
                r.bits() == 0
            }
        }),
{
    let idx = chan_index(chan_id);
    if idx >= interest_state.len() {
        return Interest::empty();
    }
    let state = interest_state[idx];
    match state.chan_id {
        Some(c) => {
            if c == chan_id {
                state.interest
            } else {
                Interest::empty()
            }
        },
        None => Interest::empty(),
    }
}

/// Record `interest` as registered for `chan_id`; `true` when that changes
/// the cache (a new generation or a new interest), i.e. when a register call
/// is due.
pub fn update_registered_interest_on(interest_state: &mut [InterestSlotState], chan_id: u32, interest: Interest) -> (r: bool)
    ensures
        ({
            let idx = spec_chan_index(chan_id);
            if idx < old(interest_state)@.len() {
                &&& r == !(old(interest_state)@[idx].chan_id == Some(chan_id)
                    && old(interest_state)@[idx].interest == interest)
                &&& final(interest_state)@ == old(interest_state)@.update(idx,
                    InterestSlotState { chan_id: Some(chan_id), interest })
            } else {
                !r && final(interest_state)@ == old(interest_state)@
            }
        }),
{
    let idx = chan_index(chan_id);
    if idx >= interest_state.len() {
        return false;
    }
    let state = interest_state[idx];
    let same_chan = match state.chan_id {
        Some(c) => c == chan_id,
        None => false,
    };
    if !same_chan {
        interest_state[idx] = InterestSlotState { chan_id: Some(chan_id), interest };
        return true;
    }
    if state.interest == interest {
        proof {
            assert(interest_state@ =~= old(interest_state)@.update(idx as int,
                InterestSlotState { chan_id: Some(chan_id), interest }));
        }
        return false;
    }
    interest_state[idx] = InterestSlotState { chan_id: Some(chan_id), interest };
    true
}

/// Forget the registered interest of `chan_id` (only for that generation).
pub fn clear_registered_interest_for(interest_state: &mut [InterestSlotState], chan_id: u32)
    ensures
        ({
            let idx = spec_chan_index(chan_id);
            if idx < old(interest_state)@.len() && old(interest_state)@[idx].chan_id == Some(chan_id) {
                &&& final(interest_state)@.len() == old(interest_state)@.len()
                &&& final(interest_state)@[idx].chan_id is None
                &&& final(interest_state)@[idx].interest.bits() == 0
                &&& forall|j: int| 0 <= j < old(interest_state)@.len() && j != idx
                    ==> #[trigger] final(interest_state)@[j] == old(interest_state)@[j]
            } else {
                final(interest_state)@ == old(interest_state)@
            }
        }),
{
    let idx = chan_index(chan_id);
    if idx >= interest_state.len() {
        return;
    }
    let state = interest_state[idx];
    if let Some(c) = state.chan_id {
        if c == chan_id {
            interest_state[idx] = InterestSlotState::default();
        }
    }
}

/// A task token is bound for `chan_id`.
pub open spec fn task_inflight_spec(task_state: Seq<TaskSlotState>, chan_id: u32) -> bool {
    let idx = spec_chan_index(chan_id);
    idx < task_state.len() && task_state[idx].chan_id == Some(chan_id) && task_state[idx].token is Some
}

pub fn task_is_inflight_on(task_state: &[TaskSlotState], chan_id: u32) -> (r: bool)
    ensures
        r == task_inflight_spec(task_state@, chan_id),
{
    let idx = chan_index(chan_id);
    if idx >= task_state.len() {
        return false;
    }
    let state = task_state[idx];
    match state.chan_id {
        Some(c) => c == chan_id && state.token.is_some(),
        None => false,
    }
}

/// Binding `token` as the one task of `chan_id`: `(bound, states)`. Refused
/// when the slot is absent or already owns a token, whatever its generation.
pub open spec fn bind_token_spec(states: Seq<TaskSlotState>, chan_id: u32, token: TaskToken) -> (bool, Seq<TaskSlotState>) {
    let idx = spec_chan_index(chan_id);
    if idx < states.len() && states[idx].token is None {
        (true, states.update(idx, TaskSlotState { chan_id: Some(chan_id), token: Some(token) }))
    } else {
        (false, states)
    }
}

pub fn bind_task_token_on(task_state: &mut [TaskSlotState], chan_id: u32, token: TaskToken) -> (r: bool)
    ensures
        r == bind_token_spec(old(task_state)@, chan_id, token).0,
        final(task_state)@ == bind_token_spec(old(task_state)@, chan_id, token).1,
{
    let idx = chan_index(chan_id);
    if idx >= task_state.len() {
        return false;
    }
    let state = task_state[idx];
    if state.token.is_some() {
        return false;
    }
    task_state[idx] = TaskSlotState { chan_id: Some(chan_id), token: Some(token) };
    true
}

/// Releasing the task token of `chan_id`: `(token, states)`; only the
/// slot's own generation can release it, and the slot state is reset.
pub open spec fn take_token_spec(states: Seq<TaskSlotState>, chan_id: u32) -> (Option<TaskToken>, Seq<TaskSlotState>) {
    let idx = spec_chan_index(chan_id);
    if idx < states.len() && states[idx].chan_id == Some(chan_id) {
        (states[idx].token, states.update(idx, TaskSlotState { chan_id: None, token: None }))
    } else {
        (None, states)
    }
}

pub fn take_task_token_on(task_state: &mut [TaskSlotState], chan_id: u32) -> (r: Option<TaskToken>)
    ensures
        r == take_token_spec(old(task_state)@, chan_id).0,
        final(task_state)@ == take_token_spec(old(task_state)@, chan_id).1,
{
    let idx = chan_index(chan_id);
    if idx >= task_state.len() {
        return None;
    }
    let state = task_state[idx];
    match state.chan_id {
        Some(c) => {
            if c != chan_id {
                return None;
            }
        },
        None => return None,
    }
    task_state[idx] = TaskSlotState { chan_id: None, token: None };
    state.token
}

/// At most one task token per slot: once a token is bound, no other bind
/// succeeds until it is taken back, and taking it back returns exactly that
/// token and resets the slot.
pub proof fn lemma_one_task_per_channel(
    states: Seq<TaskSlotState>,
    chan_id: u32,
    token: TaskToken,
    other_chan: u32,
    other: TaskToken,
)
    requires
        bind_token_spec(states, chan_id, token).0,
        spec_chan_index(other_chan) == spec_chan_index(chan_id),
    ensures
        ({
            let bound = bind_token_spec(states, chan_id, token).1;
            &&& !bind_token_spec(bound, other_chan, other).0
            &&& take_token_spec(bound, chan_id).0 == Some(token)
            &&& take_token_spec(bound, chan_id).1[spec_chan_index(chan_id)]
                == (TaskSlotState { chan_id: None, token: None })
        }),
{
}

/// A bind succeeds exactly on a present slot that holds no token, and then
/// the channel has a task in flight; only the slot's own generation gets a
/// token back, any other id gets nothing and changes nothing.
pub proof fn lemma_bind_and_take(states: Seq<TaskSlotState>, chan_id: u32, token: TaskToken)
    ensures
        ({
            let idx = spec_chan_index(chan_id);
            let b = bind_token_spec(states, chan_id, token);
            let t = take_token_spec(states, chan_id);
            &&& b.0 == (idx < states.len() && states[idx].token is None)
            &&& b.0 ==> task_inflight_spec(b.1, chan_id)
            &&& !b.0 ==> b.1 == states
            &&& !(idx < states.len() && states[idx].chan_id == Some(chan_id)) ==> t.0 is None && t.1 == states
            &&& idx < states.len() && states[idx].chan_id == Some(chan_id) ==> t.0 == states[idx].token
                && !task_inflight_spec(t.1, chan_id)
        }),
{
}

/// Clearing one reason; the slot forgets its generation once no reason is
/// left.
pub open spec fn clear_reason_spec(s: ScheduleSlotState, reason: ScheduleReason) -> ScheduleSlotState {
    let bits = s.pending_bits & !reason_bit(reason);
    ScheduleSlotState { chan_id: if bits == 0 { None } else { s.chan_id }, pending_bits: bits }
}

pub fn clear_schedule_reason_on(state: &mut ScheduleSlotState, reason: ScheduleReason)
    ensures
        *final(state) == clear_reason_spec(*old(state), reason),
{
    state.pending_bits = state.pending_bits & !reason.bit();
    if state.pending_bits == 0 {
        state.chan_id = None;
    }
}

/// Queueing `reason` for `chan_id`: `(enqueued, states, queue)`. A slot of
/// another generation is taken over first; the id is pushed only if the
/// reason is not already pending.
pub open spec fn queue_reason_spec(
    reason: ScheduleReason,
    states: Seq<ScheduleSlotState>,
    queue: Seq<u32>,
    chan_id: u32,
) -> (bool, Seq<ScheduleSlotState>, Seq<u32>) {
    let idx = spec_chan_index(chan_id);
    if idx >= states.len() {
        (false, states, queue)
    } else {
        let s = states[idx];
        let s0 = if s.chan_id == Some(chan_id) {
            s
        } else {
            ScheduleSlotState { chan_id: Some(chan_id), pending_bits: 0 }
        };
        if s0.pending_bits & reason_bit(reason) != 0 {
            (false, states.update(idx, s0), queue)
        } else {
            (
                true,
                states.update(idx, ScheduleSlotState {
                    chan_id: Some(chan_id),
                    pending_bits: s0.pending_bits | reason_bit(reason),
                }),
                queue.push(chan_id),
            )
        }
    }
}

/// Queue `reason` for `chan_id` at most once per live generation.
pub fn queue_schedule_reason_on(
    reason: ScheduleReason,
    schedule_state: &mut [ScheduleSlotState],
    queue: &mut Vec<u32>,
    chan_id: u32,
) -> (r: bool)
    ensures
        r == queue_reason_spec(reason, old(schedule_state)@, old(queue)@, chan_id).0,
        final(schedule_state)@ == queue_reason_spec(reason, old(schedule_state)@, old(queue)@, chan_id).1,
        final(queue)@ == queue_reason_spec(reason, old(schedule_state)@, old(queue)@, chan_id).2,
{
    let idx = chan_index(chan_id);
    if idx >= schedule_state.len() {
        return false;
    }
    let s = schedule_state[idx];
    let same = match s.chan_id {
        Some(c) => c == chan_id,
        None => false,
    };
    let s0 = if same { s } else { ScheduleSlotState { chan_id: Some(chan_id), pending_bits: 0 } };
    let bit = reason.bit();
    if (s0.pending_bits & bit) != 0 {
        schedule_state[idx] = s0;
        return false;
    }
    schedule_state[idx] = ScheduleSlotState { chan_id: Some(chan_id), pending_bits: s0.pending_bits | bit };
    queue.push(chan_id);
    true
}


/// A reason is queued at most once per live channel: queueing it again
/// reports `false` and leaves queue and slot state as they are.
pub proof fn lemma_queue_reason_dedups(
    reason: ScheduleReason,
    states: Seq<ScheduleSlotState>,
    queue: Seq<u32>,
    chan_id: u32,
)
    ensures
        ({
            let first = queue_reason_spec(reason, states, queue, chan_id);
            let second = queue_reason_spec(reason, first.1, first.2, chan_id);
            &&& !second.0
            &&& second.1 == first.1
            &&& second.2 == first.2
        }),
{
    let idx = spec_chan_index(chan_id);
    let first = queue_reason_spec(reason, states, queue, chan_id);
    if idx < states.len() {
        let s = states[idx];
        let s0 = if s.chan_id == Some(chan_id) { s } else { ScheduleSlotState { chan_id: Some(chan_id), pending_bits: 0 } };
        let b = reason_bit(reason);
        let bits = s0.pending_bits;
        assert((bits | b) & b != 0) by (bit_vector)
            requires b == 1 || b == 2 || b == 4 || b == 8 || b == 16 || b == 32;
        assert(first.1[idx].pending_bits & b != 0);
        assert(first.1.update(idx, first.1[idx]) =~= first.1);
    }
}

/// Work queued for an older generation of a slot never suppresses work for
/// the slot's next occupant.
pub proof fn lemma_new_generation_not_suppressed(
    reason: ScheduleReason,
    states: Seq<ScheduleSlotState>,
    queue: Seq<u32>,
    old_chan: u32,
    new_chan: u32,
)
    requires
        spec_chan_index(old_chan) == spec_chan_index(new_chan),
        old_chan != new_chan,
        spec_chan_index(new_chan) < states.len(),
    ensures
        ({
            let first = queue_reason_spec(reason, states, queue, old_chan);
            queue_reason_spec(reason, first.1, first.2, new_chan).0
        }),
{
    let idx = spec_chan_index(new_chan);
    let first = queue_reason_spec(reason, states, queue, old_chan);
    assert(first.1[idx].chan_id == Some(old_chan));
    assert(0u8 & reason_bit(reason) == 0) by (bit_vector);
}

/// Clearing one reason keeps every other pending reason.
pub proof fn lemma_clear_keeps_other_reasons(s: ScheduleSlotState, cleared: ScheduleReason, kept: ScheduleReason)
    requires
        cleared != kept,
    ensures
        clear_reason_spec(s, cleared).pending_bits & reason_bit(kept) == s.pending_bits & reason_bit(kept),
        clear_reason_spec(s, cleared).pending_bits & reason_bit(cleared) == 0,
{
    let a = reason_bit(cleared);
    let b = reason_bit(kept);
    let bits = s.pending_bits;
    assert(a != b);
    assert((bits & !a) & b == bits & b) by (bit_vector)
        requires
            a == 1 || a == 2 || a == 4 || a == 8 || a == 16 || a == 32,
            b == 1 || b == 2 || b == 4 || b == 8 || b == 16 || b == 32,
            a != b;
    assert((bits & !a) & a == 0) by (bit_vector);
}

/// Processing a queue in order: `(states, ready, rest, stale)`. Ids whose
/// slot is absent or holds another generation are stale and dropped; the
/// first `max` live ones are taken (their reason cleared), the others kept.
pub open spec fn batch_spec(
    reason: ScheduleReason,
    states: Seq<ScheduleSlotState>,
    todo: Seq<u32>,
    max: int,
) -> (Seq<ScheduleSlotState>, Seq<u32>, Seq<u32>, int)
    decreases todo.len(),
{
    if todo.len() == 0 {
        (states, Seq::empty(), Seq::empty(), 0)
    } else {
        let prev = batch_spec(reason, states, todo.drop_last(), max);
        let st = prev.0;
        let ready = prev.1;
        let rest = prev.2;
        let stale = prev.3;
        let cid = todo.last();
        let idx = spec_chan_index(cid);
        if idx >= st.len() || st[idx].chan_id != Some(cid) {
            (st, ready, rest, stale + 1)
        } else if ready.len() < max {
            (st.update(idx, clear_reason_spec(st[idx], reason)), ready.push(cid), rest, stale)
        } else {
            (st, ready, rest.push(cid), stale)
        }
    }
}

/// Bounds of a batch: states keep their length, nothing is invented.
pub proof fn lemma_batch_bounds(reason: ScheduleReason, states: Seq<ScheduleSlotState>, todo: Seq<u32>, max: int)
    ensures
        batch_spec(reason, states, todo, max).0.len() == states.len(),
        0 <= batch_spec(reason, states, todo, max).3 <= todo.len(),
        batch_spec(reason, states, todo, max).1.len() + batch_spec(reason, states, todo, max).2.len()
            + batch_spec(reason, states, todo, max).3 == todo.len(),
        max >= 0 ==> batch_spec(reason, states, todo, max).1.len() <= max,
    decreases todo.len(),
{
    if todo.len() > 0 {
        lemma_batch_bounds(reason, states, todo.drop_last(), max);
    }
}

/// What a batch does to the slot states: slots no queued id addresses are
/// untouched, and a slot's channel is at most forgotten, never replaced.
/// Every id taken was queued and live in the states the batch started from.
proof fn lemma_batch_frame(reason: ScheduleReason, states: Seq<ScheduleSlotState>, todo: Seq<u32>, max: int)
    ensures
        ({
            let b = batch_spec(reason, states, todo, max);
            &&& b.0.len() == states.len()
            &&& forall|i: int| 0 <= i < states.len() && (forall|k: int| 0 <= k < todo.len()
                ==> spec_chan_index(#[trigger] todo[k]) != i) ==> b.0[i] == states[i]
            &&& forall|i: int| 0 <= i < states.len() ==> (#[trigger] b.0[i]).chan_id == states[i].chan_id
                || b.0[i].chan_id is None
            &&& forall|k: int| 0 <= k < b.1.len() ==> todo.contains(#[trigger] b.1[k])
                && spec_chan_index(b.1[k]) < states.len() && states[spec_chan_index(b.1[k])].chan_id == Some(b.1[k])
        }),
    decreases todo.len(),
{
    if todo.len() > 0 {
        let dl = todo.drop_last();
        lemma_batch_frame(reason, states, dl, max);
        let prev = batch_spec(reason, states, dl, max);
        let b = batch_spec(reason, states, todo, max);
        let cid = todo.last();
        let idx = spec_chan_index(cid);
        assert forall|i: int| 0 <= i < states.len() && (forall|k: int| 0 <= k < todo.len()
            ==> spec_chan_index(#[trigger] todo[k]) != i) implies b.0[i] == states[i] by {
            assert forall|k: int| 0 <= k < dl.len() implies spec_chan_index(#[trigger] dl[k]) != i by {
                assert(dl[k] == todo[k]);
            }
            assert(spec_chan_index(todo[todo.len() - 1]) != i);
        }
        assert forall|k: int| 0 <= k < b.1.len() implies todo.contains(#[trigger] b.1[k])
            && spec_chan_index(b.1[k]) < states.len() && states[spec_chan_index(b.1[k])].chan_id == Some(b.1[k]) by {
            if k < prev.1.len() {
                assert(b.1[k] == prev.1[k]);
                let j = choose|j: int| 0 <= j < dl.len() && dl[j] == prev.1[k];
                assert(todo[j] == dl[j]);
            } else {
                assert(b.1[k] == cid);
                assert(todo[todo.len() - 1] == cid);
            }
        }
    }
}

/// A batch takes only ids that were queued and live when it started. When
/// the queue holds distinct live ids and no more than `max` of them, the
/// batch takes all of them, in queue order, and drops none as stale.
pub proof fn lemma_batch_takes_live_queue(reason: ScheduleReason, states: Seq<ScheduleSlotState>, todo: Seq<u32>,
    max: int)
    ensures
        ({
            let b = batch_spec(reason, states, todo, max);
            &&& forall|k: int| 0 <= k < b.1.len() ==> todo.contains(#[trigger] b.1[k])
                && spec_chan_index(b.1[k]) < states.len() && states[spec_chan_index(b.1[k])].chan_id == Some(b.1[k])
            &&& (todo.len() <= max && todo.no_duplicates() && forall|k: int| 0 <= k < todo.len()
                ==> spec_chan_index(#[trigger] todo[k]) < states.len()
                    && states[spec_chan_index(todo[k])].chan_id == Some(todo[k]))
                ==> b.1 == todo && b.3 == 0
        }),
    decreases todo.len(),
{
    lemma_batch_frame(reason, states, todo, max);
    if todo.len() > 0 && todo.len() <= max && todo.no_duplicates() && forall|k: int| 0 <= k < todo.len()
        ==> spec_chan_index(#[trigger] todo[k]) < states.len()
            && states[spec_chan_index(todo[k])].chan_id == Some(todo[k]) {
        let dl = todo.drop_last();
        let n = todo.len() - 1;
        assert(dl.no_duplicates()) by {
            assert forall|a: int, c: int| 0 <= a < dl.len() && 0 <= c < dl.len() && a != c
                implies dl[a] != dl[c] by {
                assert(dl[a] == todo[a] && dl[c] == todo[c]);
            }
        }
        assert forall|k: int| 0 <= k < dl.len() implies spec_chan_index(#[trigger] dl[k]) < states.len()
            && states[spec_chan_index(dl[k])].chan_id == Some(dl[k]) by {
            assert(dl[k] == todo[k]);
        }
        lemma_batch_takes_live_queue(reason, states, dl, max);
        lemma_batch_frame(reason, states, dl, max);
        let cid = todo[n];
        let idx = spec_chan_index(cid);
        assert forall|k: int| 0 <= k < dl.len() implies spec_chan_index(#[trigger] dl[k]) != idx by {
            assert(dl[k] == todo[k]);
            assert(todo[k] != todo[n]);
        }
        assert(todo.last() == cid);
        assert(todo =~= dl.push(cid));
    }
}

/// Take up to `max_per_tick` live ids queued for `reason`, clearing that
/// reason on their slots; returns them with the number of stale ids dropped.
pub fn take_schedule_batch(
    reason: ScheduleReason,
    schedule_state: &mut [ScheduleSlotState],
    queue: &mut Vec<u32>,
    max_per_tick: usize,
) -> (r: (Vec<u32>, u64))
    ensures
        old(queue)@.len() == 0 || max_per_tick == 0 ==> {
            &&& r.0@.len() == 0
            &&& r.1 == 0
            &&& final(schedule_state)@ == old(schedule_state)@
            &&& final(queue)@ == old(queue)@
        },
        old(queue)@.len() > 0 && max_per_tick > 0 ==> {
            let b = batch_spec(reason, old(schedule_state)@, old(queue)@, max_per_tick as int);
            &&& final(schedule_state)@ == b.0
            &&& r.0@ == b.1
            &&& final(queue)@ == b.2
            &&& r.1 as int == b.3
        },
{
    if queue.len() == 0 || max_per_tick == 0 {
        return (Vec::new(), 0);
    }
    let mut todo: Vec<u32> = Vec::new();
    std::mem::swap(&mut todo, queue);
    let cap = if todo.len() < max_per_tick { todo.len() } else { max_per_tick };
    let mut ready: Vec<u32> = Vec::with_capacity(cap);
    let mut rest: Vec<u32> = Vec::new();
    let mut stale_skipped: u64 = 0;
    let ghost s0 = schedule_state@;
    let ghost q0 = todo@;
    let mut i: usize = 0;
    proof {
        assert(q0.take(0) =~= Seq::<u32>::empty());
        assert(ready@ =~= Seq::<u32>::empty());
        assert(rest@ =~= Seq::<u32>::empty());
    }
    while i < todo.len()
        invariant
            todo@ == q0,
            s0 == old(schedule_state)@,
            q0 == old(queue)@,
            i <= q0.len(),
            schedule_state@ == batch_spec(reason, s0, q0.take(i as int), max_per_tick as int).0,
            ready@ == batch_spec(reason, s0, q0.take(i as int), max_per_tick as int).1,
            rest@ == batch_spec(reason, s0, q0.take(i as int), max_per_tick as int).2,
            stale_skipped as int == batch_spec(reason, s0, q0.take(i as int), max_per_tick as int).3,
        decreases q0.len() - i,
    {
        proof {
            assert(q0.take(i as int + 1).drop_last() =~= q0.take(i as int));
            lemma_batch_bounds(reason, s0, q0.take(i as int), max_per_tick as int);
        }
        let chan_id = todo[i];
        let idx = chan_index(chan_id);
        if idx >= schedule_state.len() {
            stale_skipped = stale_skipped + 1;
        } else {
            let s = schedule_state[idx];
            let same = match s.chan_id {
                Some(c) => c == chan_id,
                None => false,
            };
            if !same {
                stale_skipped = stale_skipped + 1;
            } else if ready.len() < max_per_tick {
                let mut st = s;
                clear_schedule_reason_on(&mut st, reason);
                schedule_state[idx] = st;
                ready.push(chan_id);
            } else {
                rest.push(chan_id);
            }
        }
        i = i + 1;
    }
    proof { assert(q0.take(i as int) =~= q0); }
    *queue = rest;
    (ready, stale_skipped)
}

} // verus!
