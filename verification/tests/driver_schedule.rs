use spark_transport::driver::schedule::{
    bind_task_token_on, chan_index, chan_next_gen, chan_pack, clear_registered_interest_for,
    queue_schedule_reason_on, registered_interest_on, take_schedule_batch, take_task_token_on,
    task_is_inflight_on, update_registered_interest_on, InterestSlotState, ScheduleReason,
    ScheduleSlotState, TaskSlotState,
};
use spark_transport::reactor::Interest;
use spark_transport::uci::TaskToken;

#[test]
fn queue_schedule_reason_on_dedups_same_reason_per_live_channel() {
    let chan_id = chan_pack(7, 1);
    let mut state = vec![ScheduleSlotState::default(); 8];
    let mut queue = Vec::new();

    assert!(queue_schedule_reason_on(ScheduleReason::WriteKick, &mut state, &mut queue, chan_id));
    assert!(!queue_schedule_reason_on(ScheduleReason::WriteKick, &mut state, &mut queue, chan_id));
    assert_eq!(queue, vec![chan_id]);
}

#[test]
fn take_schedule_batch_clears_only_the_requested_reason() {
    let chan_id = chan_pack(3, 1);
    let mut state = vec![ScheduleSlotState::default(); 4];
    let mut write_queue = Vec::new();
    let mut read_queue = Vec::new();

    assert!(queue_schedule_reason_on(ScheduleReason::WriteKick, &mut state, &mut write_queue, chan_id));
    assert!(queue_schedule_reason_on(ScheduleReason::ReadKick, &mut state, &mut read_queue, chan_id));

    let (todo, _stale) = take_schedule_batch(ScheduleReason::WriteKick, &mut state, &mut write_queue, 8);
    assert_eq!(todo, vec![chan_id]);
    assert_eq!(read_queue, vec![chan_id]);

    let (todo, _stale) = take_schedule_batch(ScheduleReason::ReadKick, &mut state, &mut read_queue, 8);
    assert_eq!(todo, vec![chan_id]);
    assert_eq!(state[3], ScheduleSlotState::default());
}

#[test]
fn take_schedule_batch_skips_stale_generation_and_keeps_new_one() {
    let old_chan_id = chan_pack(2, 1);
    let new_chan_id = chan_pack(2, 2);
    let mut state = vec![ScheduleSlotState::default(); 4];
    let mut queue = Vec::new();

    assert!(queue_schedule_reason_on(ScheduleReason::FlushFollowup, &mut state, &mut queue, old_chan_id));
    assert!(queue_schedule_reason_on(ScheduleReason::FlushFollowup, &mut state, &mut queue, new_chan_id));

    let (todo, _stale) = take_schedule_batch(ScheduleReason::FlushFollowup, &mut state, &mut queue, 1);
    assert_eq!(todo, vec![new_chan_id]);
    assert!(queue.is_empty());
}

#[test]
fn bind_and_take_task_token_tracks_live_channel() {
    let chan_id = chan_pack(1, 7);
    let mut state = vec![TaskSlotState::default(); 4];
    let token = TaskToken { idx: 11, gen: 3 };

    assert!(bind_task_token_on(&mut state, chan_id, token));
    assert!(!bind_task_token_on(&mut state, chan_id, token));
    assert_eq!(take_task_token_on(&mut state, chan_id), Some(token));
    assert_eq!(state[1], TaskSlotState::default());
}

#[test]
fn bind_task_token_rejects_cross_generation_conflict() {
    let old_chan_id = chan_pack(2, 1);
    let new_chan_id = chan_pack(2, 2);
    let mut state = vec![TaskSlotState::default(); 4];

    assert!(bind_task_token_on(&mut state, old_chan_id, TaskToken { idx: 5, gen: 1 }));
    assert!(!bind_task_token_on(&mut state, new_chan_id, TaskToken { idx: 6, gen: 1 }));
    assert_eq!(state[2].chan_id, Some(old_chan_id));
}

#[test]
fn chan_pack_places_generation_above_index() {
    let id = chan_pack(5, 3);
    assert_eq!(id, (3 << 20) | 5);
    assert_eq!(chan_index(id), 5);
    // Index and generation are masked to their widths.
    assert_eq!(chan_pack(0x10_0001, 0x1001), (1 << 20) | 1);
}

#[test]
fn chan_next_gen_wraps_to_one_never_zero() {
    assert_eq!(chan_next_gen(1), 2);
    assert_eq!(chan_next_gen(0xFFE), 0xFFF);
    assert_eq!(chan_next_gen(0xFFF), 1);
    assert_eq!(chan_next_gen(u32::MAX), 1);
}

#[test]
fn stale_task_token_release_is_ignored() {
    let old_chan_id = chan_pack(2, 1);
    let new_chan_id = chan_pack(2, 2);
    let mut state = vec![TaskSlotState::default(); 4];
    let token = TaskToken { idx: 9, gen: 4 };
    assert!(bind_task_token_on(&mut state, new_chan_id, token));
    assert!(task_is_inflight_on(&state, new_chan_id));
    assert!(!task_is_inflight_on(&state, old_chan_id));
    assert_eq!(take_task_token_on(&mut state, old_chan_id), None);
    assert!(task_is_inflight_on(&state, new_chan_id));
}

#[test]
fn registered_interest_is_deduplicated_per_generation() {
    let chan_id = chan_pack(1, 1);
    let next_gen = chan_pack(1, 2);
    let mut state = vec![InterestSlotState::default(); 2];
    let rw = Interest::read().union(Interest::write());

    assert!(update_registered_interest_on(&mut state, chan_id, rw));
    assert!(!update_registered_interest_on(&mut state, chan_id, rw));
    assert_eq!(registered_interest_on(&state, chan_id), rw);
    assert!(registered_interest_on(&state, next_gen).is_empty());
    // A new generation always needs a register call.
    assert!(update_registered_interest_on(&mut state, next_gen, rw));
    clear_registered_interest_for(&mut state, chan_id);
    assert_eq!(registered_interest_on(&state, next_gen), rw);
    clear_registered_interest_for(&mut state, next_gen);
    assert!(registered_interest_on(&state, next_gen).is_empty());
    // Out-of-range slots never register.
    assert!(!update_registered_interest_on(&mut state, chan_pack(5, 1), rw));
}

#[test]
fn take_schedule_batch_keeps_overflow_for_next_tick() {
    let mut state = vec![ScheduleSlotState::default(); 4];
    let mut queue = Vec::new();
    let a = chan_pack(0, 1);
    let b = chan_pack(1, 1);
    let c = chan_pack(3, 1);
    for id in [a, b, c] {
        assert!(queue_schedule_reason_on(ScheduleReason::DrainingFlush, &mut state, &mut queue, id));
    }
    let (todo, stale) = take_schedule_batch(ScheduleReason::DrainingFlush, &mut state, &mut queue, 2);
    assert_eq!(todo, vec![a, b]);
    assert_eq!(stale, 0);
    assert_eq!(queue, vec![c]);
    assert_eq!(state[0], ScheduleSlotState::default());
    assert_eq!(state[3].pending_bits, ScheduleReason::DrainingFlush.bit());
    // An empty budget takes nothing.
    let (todo, stale) = take_schedule_batch(ScheduleReason::DrainingFlush, &mut state, &mut queue, 0);
    assert!(todo.is_empty());
    assert_eq!(stale, 0);
    assert_eq!(queue, vec![c]);
}
