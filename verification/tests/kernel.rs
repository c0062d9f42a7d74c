use spark_transport::driver::channel_state::{close_reason, tok_chan_id, CloseCause, ChannelState};
use spark_transport::driver::kernel::{ChannelLimits, DriverKernel};
use spark_transport::driver::read_loop::{ReadLoop, ReadLoopAction};
use spark_transport::driver::task::{task_step, TaskAction, TaskDecision, TaskStage, MAX_TASK_STEPS};
use spark_transport::driver::tick::{tick_phase, wake_drain_limit, PhaseWork, TICK_PHASES};
use spark_transport::executor::RunStatus;
use spark_transport::driver::schedule::{chan_pack, ScheduleReason};
use spark_transport::error_codes::{ERR_CHAN_SLOT_OCCUPIED, ERR_TASK_STATE_CONFLICT, SUBSYS_OS_ERRNO};
use spark_transport::evidence::{EvidenceSink, NoopEvidenceSink};
use spark_transport::names;
use std::sync::{Arc, Mutex};
use spark_transport::io::{ChannelCaps, IoOps, MsgBoundary, ReadOutcome, STREAM};
use spark_transport::metrics::DataPlaneMetrics;
use spark_transport::outbound::buffer::WritabilityChange;
use spark_transport::outbound::frame::OutboundFrame;
use spark_transport::pipeline::route::{handler_len, handler_slot, next_inbound, prev_outbound, HandlerSlot};
use spark_transport::policy::FlushBudget;
use spark_transport::reactor::Interest;
use spark_transport::slab::Slab;
use spark_transport::uci::{Budget, internal_code, internal_detail, internal_subsystem, EvidenceEvent, Instant, KernelError, RxToken, TaskToken};

#[test]
fn slab_hands_out_ascending_indices_and_invalidates_freed_tokens() {
    let mut s: Slab<&'static str> = Slab::new(2);
    let a = s.insert("a").unwrap();
    let b = s.insert("b").unwrap();
    assert_eq!(a, TaskToken { idx: 0, gen: 1 });
    assert_eq!(b, TaskToken { idx: 1, gen: 1 });
    assert!(s.insert("c").is_none());

    *s.get_mut(a).unwrap() = "A";
    assert_eq!(s.take(a), Some("A"));
    assert!(s.put(a, "again"));
    assert!(!s.put(a, "twice"));

    s.free(a);
    assert!(s.get_mut(a).is_none());
    let c = s.insert("c").unwrap();
    assert_eq!(c, TaskToken { idx: 0, gen: 2 });
    assert!(s.take(a).is_none());
    assert_eq!(s.find_token_by(|v| *v == "b"), Some(b));
    assert_eq!(s.find_token_by(|v| *v == "zzz"), None);
}

#[test]
fn kernel_allocates_installs_and_reclaims_generational_ids() {
    let mut k = DriverKernel::new(2);
    let mut m = DataPlaneMetrics::default();
    let id0 = k.alloc_chan_id().unwrap();
    assert_eq!(id0, chan_pack(0, 1));
    let id1 = k.alloc_chan_id().unwrap();
    assert_eq!(id1, chan_pack(1, 1));
    assert_eq!(k.alloc_chan_id(), Err(KernelError::NoMem));

    assert_eq!(k.install_slot(id0, &mut m), Ok(()));
    assert!(k.is_installed(id0));
    assert_eq!(k.install_slot(id0, &mut m), Err(KernelError::Internal(ERR_CHAN_SLOT_OCCUPIED)));
    assert_eq!(m.active_connections, 1);

    assert!(k.register_due(id0, Interest::read(), &mut m));
    assert!(!k.register_due(id0, Interest::read(), &mut m));
    assert_eq!(k.registered_interest(id0), Interest::read());

    let out = k.reclaim(id0, &mut m);
    assert!(out.dropped);
    assert!(out.deregister);
    assert_eq!(out.freed_token, None);
    assert!(!k.is_installed(id0));

    let again = k.alloc_chan_id().unwrap();
    assert_eq!(again, chan_pack(0, 2));
    assert_ne!(again, id0);
}

#[test]
fn kernel_gates_and_binds_read_tasks_per_generation() {
    let mut k = DriverKernel::new(1);
    let mut m = DataPlaneMetrics::default();
    let id = k.alloc_chan_id().unwrap();
    k.install_slot(id, &mut m).unwrap();

    assert!(k.gate_read_task(id, false, &mut m));
    assert!(!k.gate_read_task(id, true, &mut m));
    let tok = TaskToken { idx: 0, gen: 5 };
    assert!(k.bind_read_task(id, tok, &mut m));
    assert!(k.task_inflight(id));
    assert!(!k.gate_read_task(id, false, &mut m));
    assert!(!k.bind_read_task(id, TaskToken { idx: 1, gen: 1 }, &mut m));
    assert_eq!(k.finish_task(id, &mut m), Some(tok));
    assert!(!k.task_inflight(id));
    assert_eq!(m.driver_task_submit_paused_suppressed_total, 1);
    assert_eq!(m.driver_task_submit_inflight_suppressed_total, 1);
}

#[test]
fn kernel_install_refuses_slot_with_foreign_task_token() {
    let mut k = DriverKernel::new(1);
    let mut m = DataPlaneMetrics::default();
    let old_id = k.alloc_chan_id().unwrap();
    assert!(k.bind_read_task(old_id, TaskToken { idx: 0, gen: 1 }, &mut m));
    let other = chan_pack(0, 2);
    assert_eq!(k.install_slot(other, &mut m), Err(KernelError::Internal(ERR_TASK_STATE_CONFLICT)));
    assert_eq!(m.driver_task_state_conflict_total, 1);
    assert_eq!(k.finish_task(old_id, &mut m), Some(TaskToken { idx: 0, gen: 1 }));
    assert_eq!(k.install_slot(other, &mut m), Ok(()));
}

#[test]
fn kernel_schedule_batches_drop_stale_ids() {
    let mut k = DriverKernel::new(2);
    let mut m = DataPlaneMetrics::default();
    let id = k.alloc_chan_id().unwrap();
    k.install_slot(id, &mut m).unwrap();
    assert!(k.queue_schedule_reason(ScheduleReason::WriteKick, id, &mut m));
    assert!(!k.queue_schedule_reason(ScheduleReason::WriteKick, id, &mut m));
    assert_eq!(k.take_batch(ScheduleReason::WriteKick, 8, &mut m), vec![id]);
    assert_eq!(k.take_batch(ScheduleReason::WriteKick, 8, &mut m), Vec::<u32>::new());
    assert_eq!(m.driver_schedule_write_kick_total, 1);
}

#[test]
fn read_loop_is_bounded_and_maps_results() {
    let mut l = ReadLoop::new(2);
    assert!(l.begin_read());
    assert!(l.begin_read());
    assert!(!l.begin_read());
    l.count_bytes(10);
    l.count_bytes(5);
    assert_eq!(l.read_bytes, 15);
    assert_eq!(l.after_read(Ok((MsgBoundary::NotProvided, true))), ReadLoopAction::Continue);
    assert_eq!(l.after_read(Ok((MsgBoundary::Complete, true))), ReadLoopAction::Stop);
    assert_eq!(l.after_read(Ok((MsgBoundary::NotProvided, false))), ReadLoopAction::Stop);
    assert_eq!(l.after_read(Err(KernelError::WouldBlock)), ReadLoopAction::Stop);
    assert_eq!(l.after_read(Err(KernelError::Interrupted)), ReadLoopAction::Continue);
    assert_eq!(l.after_read(Err(KernelError::Eof)), ReadLoopAction::MarkEofAndStop);
    assert_eq!(l.after_read(Err(KernelError::Reset)), ReadLoopAction::Fail(KernelError::Reset));
}

#[test]
fn pipeline_layout_routes_between_fixed_handlers() {
    assert_eq!(handler_len(2, 1), 8);
    assert_eq!(handler_slot(0, 2, 1), HandlerSlot::Head);
    assert_eq!(handler_slot(2, 2, 1), HandlerSlot::First(1));
    assert_eq!(handler_slot(3, 2, 1), HandlerSlot::Encoder);
    assert_eq!(handler_slot(4, 2, 1), HandlerSlot::Frame);
    assert_eq!(handler_slot(5, 2, 1), HandlerSlot::App);
    assert_eq!(handler_slot(6, 2, 1), HandlerSlot::Last(0));
    assert_eq!(handler_slot(7, 2, 1), HandlerSlot::Tail);
    assert_eq!(next_inbound(6, 8), Some(7));
    assert_eq!(next_inbound(7, 8), None);
    assert_eq!(prev_outbound(0), None);
    assert_eq!(prev_outbound(3), Some(2));
}

#[test]
fn internal_codes_split_into_subsystem_and_detail() {
    let c = internal_code(SUBSYS_OS_ERRNO, 0x0123_4567);
    assert_eq!(c, 0x1023_4567);
    assert_eq!(internal_subsystem(c), SUBSYS_OS_ERRNO);
    assert_eq!(internal_detail(c), 0x23_4567);
    assert_eq!(tok_chan_id(RxToken((7u64 << 32) | 9)), 7);
}

#[test]
fn close_reasons_name_the_cause() {
    assert_eq!(close_reason(CloseCause::Requested), ("requested", false));
    assert_eq!(close_reason(CloseCause::Error(KernelError::Reset)), ("reset", true));
    assert_eq!(close_reason(CloseCause::Error(KernelError::Timeout)), ("timeout", false));
    assert_eq!(close_reason(CloseCause::Unset), ("closed", false));
}

#[test]
fn channel_limits_raise_max_frame() {
    let l = ChannelLimits::new(0, 8, 4, 100);
    assert_eq!(l.max_frame, 1);
    assert_eq!(l.high_watermark, 8);
}

/// A backend that accepts every byte written to it.
struct SinkIo {
    accepted: Vec<u8>,
    closes: usize,
}

impl IoOps for SinkIo {
    fn capabilities(&self) -> ChannelCaps {
        STREAM
    }
    fn try_read_lease(&mut self) -> Result<ReadOutcome, KernelError> {
        Err(KernelError::Unsupported)
    }
    fn try_read_into(&mut self, _dst: &mut [u8]) -> Result<ReadOutcome, KernelError> {
        Err(KernelError::WouldBlock)
    }
    fn try_write(&mut self, data: &[u8]) -> Result<usize, KernelError> {
        self.accepted.extend_from_slice(data);
        Ok(data.len())
    }
    fn flush(&mut self) -> Result<(), KernelError> {
        Ok(())
    }
    fn close(&mut self) -> Result<(), KernelError> {
        self.closes += 1;
        Ok(())
    }
}

fn channel() -> ChannelState<NoopEvidenceSink, SinkIo> {
    ChannelState::new(
        chan_pack(0, 1),
        SinkIo { accepted: Vec::new(), closes: 0 },
        8,
        4,
        FlushBudget::new(1024, 4),
        NoopEvidenceSink,
    )
}

#[test]
fn channel_interest_follows_reads_and_pending_writes() {
    let mut ch = channel();
    assert_eq!(ch.desired_interest(), Interest::read());
    ch.enqueue_outbound(OutboundFrame::from_bytes(b"hello world".to_vec()));
    assert!(!ch.is_writable());
    assert_eq!(ch.take_writability_change(), WritabilityChange::BecameUnwritable { pending_bytes: 11 });
    assert!(ch.is_read_paused());
    assert_eq!(ch.desired_interest(), Interest::write());

    let (_, wrote, _, _) = ch.flush_outbound();
    assert_eq!(wrote, 11);
    assert!(ch.is_writable());
    assert!(!ch.is_read_paused());
    assert_eq!(ch.io_mut().accepted, b"hello world".to_vec());
    assert_eq!(ch.desired_interest(), Interest::read());

    ch.mark_peer_eof();
    assert!(ch.is_read_paused());
    assert_eq!(ch.desired_interest(), Interest::empty());
}

#[test]
fn close_request_is_idempotent_and_pauses_reads() {
    let mut ch = channel();
    ch.request_close();
    ch.request_close();
    assert!(ch.is_close_requested());
    assert!(ch.is_read_paused());
    assert_eq!(ch.io_mut().closes, 1);
}

#[test]
fn draining_closes_after_flush_or_deadline() {
    let mut ch = channel();
    ch.enter_draining(true, 100, 0, Instant(10));
    assert!(ch.is_draining());
    ch.poll_draining(0, Instant(11));
    assert!(!ch.is_draining());
    assert!(ch.is_close_requested());

    let mut slow = channel();
    slow.enqueue_outbound(OutboundFrame::from_bytes(b"x".to_vec()));
    slow.enter_draining(true, 100, 0, Instant(10));
    slow.poll_draining(0, Instant(50));
    assert!(slow.is_draining());
    slow.poll_draining(0, Instant(110));
    assert!(!slow.is_draining());
    assert!(slow.is_close_requested());
}

/// A sink that keeps every event.
#[derive(Clone, Default)]
struct RecordingSink(Arc<Mutex<Vec<EvidenceEvent>>>);

impl EvidenceSink for RecordingSink {
    fn emit(&self, event: EvidenceEvent) {
        self.0.lock().unwrap().push(event);
    }
}

fn names_of(sink: &RecordingSink) -> Vec<&'static str> {
    sink.0.lock().unwrap().iter().map(|e| e.name).collect()
}

#[test]
fn close_evidence_is_emitted_once_with_its_cause() {
    let sink = RecordingSink::default();
    let mut ch = ChannelState::new(
        chan_pack(3, 1),
        SinkIo { accepted: Vec::new(), closes: 0 },
        8,
        4,
        FlushBudget::new(1024, 4),
        sink.clone(),
    );
    ch.request_close();
    ch.request_close();
    ch.note_close_error(KernelError::Reset);
    ch.emit_close_complete();
    ch.emit_close_complete();
    assert_eq!(
        names_of(&sink),
        vec![names::CLOSE_REQUESTED, names::CLOSE_COMPLETE, names::ABORTIVE_CLOSE]
    );
    let events = sink.0.lock().unwrap();
    assert_eq!(events[1].reason, "reset");
    assert_eq!(events[0].channel_id, chan_pack(3, 1));
    assert_eq!(events[0].scope, "channel");
}

#[test]
fn backpressure_and_draining_evidence_follow_the_state() {
    let sink = RecordingSink::default();
    let mut ch = ChannelState::new(
        chan_pack(0, 1),
        SinkIo { accepted: Vec::new(), closes: 0 },
        8,
        4,
        FlushBudget::new(1024, 4),
        sink.clone(),
    );
    ch.enqueue_outbound(OutboundFrame::from_bytes(b"0123456789".to_vec()));
    let _ = ch.flush_outbound();
    ch.enter_draining(true, 1_000, 0, Instant(5));
    ch.poll_draining(0, Instant(6));
    assert_eq!(
        names_of(&sink),
        vec![
            names::BACKPRESSURE_ENTER,
            names::BACKPRESSURE_EXIT,
            names::DRAINING_ENTER,
            names::DRAINING_EXIT,
            names::CLOSE_REQUESTED,
        ]
    );
    let events = sink.0.lock().unwrap();
    assert_eq!(events[0].value, 10);
    assert_eq!(events[0].unit, "bytes");
}

#[test]
fn task_steps_read_poll_close_and_finish() {
    let d = |action, enter_draining| TaskDecision { action, enter_draining };
    assert_eq!(MAX_TASK_STEPS, 3);
    assert_eq!(task_step(TaskStage::Start, false, false, false, true, false), d(TaskAction::Gone, false));
    assert_eq!(task_step(TaskStage::Start, true, false, false, true, false), d(TaskAction::Poll, false));
    assert_eq!(task_step(TaskStage::Start, true, false, false, false, false), d(TaskAction::Read, false));
    assert_eq!(
        task_step(TaskStage::AfterRead(Err(KernelError::Reset)), true, true, false, true, false),
        d(TaskAction::CloseWithError(KernelError::Reset), false)
    );
    assert_eq!(
        task_step(TaskStage::AfterRead(Err(KernelError::WouldBlock)), true, true, false, false, false),
        d(TaskAction::Finish, true)
    );
    assert_eq!(task_step(TaskStage::AfterRead(Ok(())), true, true, true, true, false), d(TaskAction::Poll, false));
    assert_eq!(task_step(TaskStage::Pending, true, false, false, false, false), d(TaskAction::Park, false));
    assert_eq!(task_step(TaskStage::Completed, false, false, false, true, true), d(TaskAction::Gone, false));
    assert_eq!(task_step(TaskStage::Completed, true, false, false, false, true), d(TaskAction::Restart, false));
    assert_eq!(task_step(TaskStage::Completed, true, false, false, false, false), d(TaskAction::Finish, false));
    assert_eq!(TaskAction::Gone.run_status(), RunStatus::Closed);
    assert_eq!(TaskAction::CloseWithError(KernelError::Closed).run_status(), RunStatus::Closed);
    assert_eq!(TaskAction::Finish.run_status(), RunStatus::Done);
}

#[test]
fn slab_value_survives_operations_on_other_slots() {
    let mut s: Slab<u32> = Slab::new(3);
    let a = s.insert(10).unwrap();
    let b = s.insert(20).unwrap();
    assert_eq!(s.take(b), Some(20));
    assert!(s.put(b, 21));
    s.free(b);
    let c = s.insert(30).unwrap();
    assert_eq!(c.idx, b.idx);
    assert_eq!(s.get_mut(a).copied(), Some(10));
    s.free(TaskToken { idx: a.idx, gen: a.gen + 1 });
    assert!(s.get_mut(a).is_none());
}

#[test]
fn tick_takes_each_reason_once_in_a_fixed_order() {
    let phases: Vec<_> = (0..TICK_PHASES).map(|i| tick_phase(i).unwrap()).collect();
    assert_eq!(phases[0], (ScheduleReason::InterestSync, usize::MAX, PhaseWork::SyncInterest));
    assert_eq!(phases[1], (ScheduleReason::Reclaim, usize::MAX, PhaseWork::Reclaim));
    assert_eq!(phases[2], (ScheduleReason::DrainingFlush, 64, PhaseWork::Flush));
    assert_eq!(phases[3], (ScheduleReason::WriteKick, 64, PhaseWork::Flush));
    assert_eq!(phases[4], (ScheduleReason::FlushFollowup, 64, PhaseWork::Flush));
    assert_eq!(phases[5], (ScheduleReason::ReadKick, 64, PhaseWork::SubmitRead));
    assert!(tick_phase(TICK_PHASES).is_none());
    assert_eq!(wake_drain_limit(Budget { max_events: 0, max_nanos: 0 }), 1);
    assert_eq!(wake_drain_limit(Budget { max_events: 7, max_nanos: 0 }), 7);
}
