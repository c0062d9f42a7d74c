//! Dataplane counters: per-event recorders, snapshots and interval deltas.
//!
//! Counters are plain `u64`s updated through `&mut self`; a caller that
//! shares them across threads wraps the whole value in its own lock.
use vstd::prelude::*;

verus! {

/// `a + b` modulo 2^64 (what an atomic `fetch_add` leaves behind).
pub open spec fn wrap_add(a: u64, b: u64) -> u64 {
    if a as int + b as int > u64::MAX as int {
        (a as int + b as int - 0x1_0000_0000_0000_0000) as u64
    } else {
        (a as int + b as int) as u64
    }
}

/// `a - b`, or 0 when `b > a`.
pub open spec fn sat_sub(a: u64, b: u64) -> u64 {
    if a >= b { (a - b) as u64 } else { 0 }
}

pub(crate) fn add_wrapping(a: u64, b: u64) -> (r: u64)
    ensures
        r == wrap_add(a, b),
{
    a.wrapping_add(b)
}

fn as_u64(v: usize) -> (r: u64)
    ensures
        r as int == v as int,
{
    v as u64
}

/// Live dataplane counters.
#[derive(Debug)]
pub struct DataPlaneMetrics {
    pub accepted_total: u64,
    pub accept_errors_total: u64,
    pub accept_errors_transient_total: u64,
    pub accept_errors_fatal_total: u64,
    pub accept_rejected_total: u64,
    pub closed_total: u64,
    pub active_connections: u64,
    pub read_bytes_total: u64,
    pub write_bytes_total: u64,
    pub write_syscalls_total: u64,
    pub write_writev_calls_total: u64,
    pub backpressure_enter_total: u64,
    pub backpressure_exit_total: u64,
    pub draining_enter_total: u64,
    pub draining_exit_total: u64,
    pub draining_timeout_total: u64,
    pub decoded_msgs_total: u64,
    pub decode_errors_total: u64,
    pub inbound_frame_too_large_total: u64,
    pub flush_limited_total: u64,
    pub overload_reject_total: u64,
    pub overload_backpressure_total: u64,
    pub overload_close_total: u64,
    pub app_queue_high_watermark: u64,
    pub inbound_coalesce_total: u64,
    pub inbound_copied_bytes_total: u64,
    pub rx_lease_tokens_total: u64,
    pub rx_lease_borrowed_bytes_total: u64,
    pub rx_materialize_bytes_total: u64,
    pub rx_cumulation_copy_bytes_total: u64,
    pub driver_schedule_interest_sync_total: u64,
    pub driver_schedule_reclaim_total: u64,
    pub driver_schedule_draining_flush_total: u64,
    pub driver_schedule_write_kick_total: u64,
    pub driver_schedule_flush_followup_total: u64,
    pub driver_schedule_read_kick_total: u64,
    pub driver_schedule_stale_skipped_total: u64,
    pub driver_interest_register_total: u64,
    pub driver_interest_register_skipped_total: u64,
    pub driver_task_submit_total: u64,
    pub driver_task_submit_failed_total: u64,
    pub driver_task_submit_inflight_suppressed_total: u64,
    pub driver_task_submit_paused_suppressed_total: u64,
    pub driver_task_finish_total: u64,
    pub driver_task_reclaim_total: u64,
    pub driver_task_state_conflict_total: u64,
}

/// Instantaneous counter snapshot used by exporters, tests and perf scripts.
#[derive(Debug, Clone, Copy, PartialEq, Eq)]
pub struct DataPlaneMetricsSnapshot {
    pub accepted_total: u64,
    pub accept_errors_total: u64,
    pub accept_errors_transient_total: u64,
    pub accept_errors_fatal_total: u64,
    pub accept_rejected_total: u64,
    pub closed_total: u64,
    pub active_connections: u64,
    pub read_bytes_total: u64,
    pub write_bytes_total: u64,
    pub write_syscalls_total: u64,
    pub write_writev_calls_total: u64,
    pub backpressure_enter_total: u64,
    pub backpressure_exit_total: u64,
    pub draining_enter_total: u64,
    pub draining_exit_total: u64,
    pub draining_timeout_total: u64,
    pub decoded_msgs_total: u64,
    pub decode_errors_total: u64,
    pub inbound_frame_too_large_total: u64,
    pub flush_limited_total: u64,
    pub overload_reject_total: u64,
    pub overload_backpressure_total: u64,
    pub overload_close_total: u64,
    pub app_queue_high_watermark: u64,
    pub inbound_coalesce_total: u64,
    pub inbound_copied_bytes_total: u64,
    pub rx_lease_tokens_total: u64,
    pub rx_lease_borrowed_bytes_total: u64,
    pub rx_materialize_bytes_total: u64,
    pub rx_cumulation_copy_bytes_total: u64,
    pub driver_schedule_interest_sync_total: u64,
    pub driver_schedule_reclaim_total: u64,
    pub driver_schedule_draining_flush_total: u64,
    pub driver_schedule_write_kick_total: u64,
    pub driver_schedule_flush_followup_total: u64,
    pub driver_schedule_read_kick_total: u64,
    pub driver_schedule_stale_skipped_total: u64,
    pub driver_interest_register_total: u64,
    pub driver_interest_register_skipped_total: u64,
    pub driver_task_submit_total: u64,
    pub driver_task_submit_failed_total: u64,
    pub driver_task_submit_inflight_suppressed_total: u64,
    pub driver_task_submit_paused_suppressed_total: u64,
    pub driver_task_finish_total: u64,
    pub driver_task_reclaim_total: u64,
    pub driver_task_state_conflict_total: u64,
}

/// The all-zero snapshot.
pub open spec fn zero_snapshot() -> DataPlaneMetricsSnapshot {
    DataPlaneMetricsSnapshot {
        accepted_total: 0,
        accept_errors_total: 0,
        accept_errors_transient_total: 0,
        accept_errors_fatal_total: 0,
        accept_rejected_total: 0,
        closed_total: 0,
        active_connections: 0,
        read_bytes_total: 0,
        write_bytes_total: 0,
        write_syscalls_total: 0,
        write_writev_calls_total: 0,
        backpressure_enter_total: 0,
        backpressure_exit_total: 0,
        draining_enter_total: 0,
        draining_exit_total: 0,
        draining_timeout_total: 0,
        decoded_msgs_total: 0,
        decode_errors_total: 0,
        inbound_frame_too_large_total: 0,
        flush_limited_total: 0,
        overload_reject_total: 0,
        overload_backpressure_total: 0,
        overload_close_total: 0,
        app_queue_high_watermark: 0,
        inbound_coalesce_total: 0,
        inbound_copied_bytes_total: 0,
        rx_lease_tokens_total: 0,
        rx_lease_borrowed_bytes_total: 0,
        rx_materialize_bytes_total: 0,
        rx_cumulation_copy_bytes_total: 0,
        driver_schedule_interest_sync_total: 0,
        driver_schedule_reclaim_total: 0,
        driver_schedule_draining_flush_total: 0,
        driver_schedule_write_kick_total: 0,
        driver_schedule_flush_followup_total: 0,
        driver_schedule_read_kick_total: 0,
        driver_schedule_stale_skipped_total: 0,
        driver_interest_register_total: 0,
        driver_interest_register_skipped_total: 0,
        driver_task_submit_total: 0,
        driver_task_submit_failed_total: 0,
        driver_task_submit_inflight_suppressed_total: 0,
        driver_task_submit_paused_suppressed_total: 0,
        driver_task_finish_total: 0,
        driver_task_reclaim_total: 0,
        driver_task_state_conflict_total: 0,
    }
}

/// The counters of `m`, read one for one.
pub open spec fn snapshot_spec(m: DataPlaneMetrics) -> DataPlaneMetricsSnapshot {
    DataPlaneMetricsSnapshot {
        accepted_total: m.accepted_total,
        accept_errors_total: m.accept_errors_total,
        accept_errors_transient_total: m.accept_errors_transient_total,
        accept_errors_fatal_total: m.accept_errors_fatal_total,
        accept_rejected_total: m.accept_rejected_total,
        closed_total: m.closed_total,
        active_connections: m.active_connections,
        read_bytes_total: m.read_bytes_total,
        write_bytes_total: m.write_bytes_total,
        write_syscalls_total: m.write_syscalls_total,
        write_writev_calls_total: m.write_writev_calls_total,
        backpressure_enter_total: m.backpressure_enter_total,
        backpressure_exit_total: m.backpressure_exit_total,
        draining_enter_total: m.draining_enter_total,
        draining_exit_total: m.draining_exit_total,
        draining_timeout_total: m.draining_timeout_total,
        decoded_msgs_total: m.decoded_msgs_total,
        decode_errors_total: m.decode_errors_total,
        inbound_frame_too_large_total: m.inbound_frame_too_large_total,
        flush_limited_total: m.flush_limited_total,
        overload_reject_total: m.overload_reject_total,
        overload_backpressure_total: m.overload_backpressure_total,
        overload_close_total: m.overload_close_total,
        app_queue_high_watermark: m.app_queue_high_watermark,
        inbound_coalesce_total: m.inbound_coalesce_total,
        inbound_copied_bytes_total: m.inbound_copied_bytes_total,
        rx_lease_tokens_total: m.rx_lease_tokens_total,
        rx_lease_borrowed_bytes_total: m.rx_lease_borrowed_bytes_total,
        rx_materialize_bytes_total: m.rx_materialize_bytes_total,
        rx_cumulation_copy_bytes_total: m.rx_cumulation_copy_bytes_total,
        driver_schedule_interest_sync_total: m.driver_schedule_interest_sync_total,
        driver_schedule_reclaim_total: m.driver_schedule_reclaim_total,
        driver_schedule_draining_flush_total: m.driver_schedule_draining_flush_total,
        driver_schedule_write_kick_total: m.driver_schedule_write_kick_total,
        driver_schedule_flush_followup_total: m.driver_schedule_flush_followup_total,
        driver_schedule_read_kick_total: m.driver_schedule_read_kick_total,
        driver_schedule_stale_skipped_total: m.driver_schedule_stale_skipped_total,
        driver_interest_register_total: m.driver_interest_register_total,
        driver_interest_register_skipped_total: m.driver_interest_register_skipped_total,
        driver_task_submit_total: m.driver_task_submit_total,
        driver_task_submit_failed_total: m.driver_task_submit_failed_total,
        driver_task_submit_inflight_suppressed_total: m.driver_task_submit_inflight_suppressed_total,
        driver_task_submit_paused_suppressed_total: m.driver_task_submit_paused_suppressed_total,
        driver_task_finish_total: m.driver_task_finish_total,
        driver_task_reclaim_total: m.driver_task_reclaim_total,
        driver_task_state_conflict_total: m.driver_task_state_conflict_total,
    }
}

/// Per-counter saturating difference `next - base`.
pub open spec fn delta_spec(next: DataPlaneMetricsSnapshot, base: DataPlaneMetricsSnapshot) -> DataPlaneMetricsSnapshot {
    DataPlaneMetricsSnapshot {
        accepted_total: sat_sub(next.accepted_total, base.accepted_total),
        accept_errors_total: sat_sub(next.accept_errors_total, base.accept_errors_total),
        accept_errors_transient_total: sat_sub(next.accept_errors_transient_total, base.accept_errors_transient_total),
        accept_errors_fatal_total: sat_sub(next.accept_errors_fatal_total, base.accept_errors_fatal_total),
        accept_rejected_total: sat_sub(next.accept_rejected_total, base.accept_rejected_total),
        closed_total: sat_sub(next.closed_total, base.closed_total),
        active_connections: sat_sub(next.active_connections, base.active_connections),
        read_bytes_total: sat_sub(next.read_bytes_total, base.read_bytes_total),
        write_bytes_total: sat_sub(next.write_bytes_total, base.write_bytes_total),
        write_syscalls_total: sat_sub(next.write_syscalls_total, base.write_syscalls_total),
        write_writev_calls_total: sat_sub(next.write_writev_calls_total, base.write_writev_calls_total),
        backpressure_enter_total: sat_sub(next.backpressure_enter_total, base.backpressure_enter_total),
        backpressure_exit_total: sat_sub(next.backpressure_exit_total, base.backpressure_exit_total),
        draining_enter_total: sat_sub(next.draining_enter_total, base.draining_enter_total),
        draining_exit_total: sat_sub(next.draining_exit_total, base.draining_exit_total),
        draining_timeout_total: sat_sub(next.draining_timeout_total, base.draining_timeout_total),
        decoded_msgs_total: sat_sub(next.decoded_msgs_total, base.decoded_msgs_total),
        decode_errors_total: sat_sub(next.decode_errors_total, base.decode_errors_total),
        inbound_frame_too_large_total: sat_sub(next.inbound_frame_too_large_total, base.inbound_frame_too_large_total),
        flush_limited_total: sat_sub(next.flush_limited_total, base.flush_limited_total),
        overload_reject_total: sat_sub(next.overload_reject_total, base.overload_reject_total),
        overload_backpressure_total: sat_sub(next.overload_backpressure_total, base.overload_backpressure_total),
        overload_close_total: sat_sub(next.overload_close_total, base.overload_close_total),
        app_queue_high_watermark: sat_sub(next.app_queue_high_watermark, base.app_queue_high_watermark),
        inbound_coalesce_total: sat_sub(next.inbound_coalesce_total, base.inbound_coalesce_total),
        inbound_copied_bytes_total: sat_sub(next.inbound_copied_bytes_total, base.inbound_copied_bytes_total),
        rx_lease_tokens_total: sat_sub(next.rx_lease_tokens_total, base.rx_lease_tokens_total),
        rx_lease_borrowed_bytes_total: sat_sub(next.rx_lease_borrowed_bytes_total, base.rx_lease_borrowed_bytes_total),
        rx_materialize_bytes_total: sat_sub(next.rx_materialize_bytes_total, base.rx_materialize_bytes_total),
        rx_cumulation_copy_bytes_total: sat_sub(next.rx_cumulation_copy_bytes_total, base.rx_cumulation_copy_bytes_total),
        driver_schedule_interest_sync_total: sat_sub(next.driver_schedule_interest_sync_total, base.driver_schedule_interest_sync_total),
        driver_schedule_reclaim_total: sat_sub(next.driver_schedule_reclaim_total, base.driver_schedule_reclaim_total),
        driver_schedule_draining_flush_total: sat_sub(next.driver_schedule_draining_flush_total, base.driver_schedule_draining_flush_total),
        driver_schedule_write_kick_total: sat_sub(next.driver_schedule_write_kick_total, base.driver_schedule_write_kick_total),
        driver_schedule_flush_followup_total: sat_sub(next.driver_schedule_flush_followup_total, base.driver_schedule_flush_followup_total),
        driver_schedule_read_kick_total: sat_sub(next.driver_schedule_read_kick_total, base.driver_schedule_read_kick_total),
        driver_schedule_stale_skipped_total: sat_sub(next.driver_schedule_stale_skipped_total, base.driver_schedule_stale_skipped_total),
        driver_interest_register_total: sat_sub(next.driver_interest_register_total, base.driver_interest_register_total),
        driver_interest_register_skipped_total: sat_sub(next.driver_interest_register_skipped_total, base.driver_interest_register_skipped_total),
        driver_task_submit_total: sat_sub(next.driver_task_submit_total, base.driver_task_submit_total),
        driver_task_submit_failed_total: sat_sub(next.driver_task_submit_failed_total, base.driver_task_submit_failed_total),
        driver_task_submit_inflight_suppressed_total: sat_sub(next.driver_task_submit_inflight_suppressed_total, base.driver_task_submit_inflight_suppressed_total),
        driver_task_submit_paused_suppressed_total: sat_sub(next.driver_task_submit_paused_suppressed_total, base.driver_task_submit_paused_suppressed_total),
        driver_task_finish_total: sat_sub(next.driver_task_finish_total, base.driver_task_finish_total),
        driver_task_reclaim_total: sat_sub(next.driver_task_reclaim_total, base.driver_task_reclaim_total),
        driver_task_state_conflict_total: sat_sub(next.driver_task_state_conflict_total, base.driver_task_state_conflict_total),
    }
}

/// Every counter of `next` is at least the one of `base`.
pub open spec fn dominates(next: DataPlaneMetricsSnapshot, base: DataPlaneMetricsSnapshot) -> bool {
    &&& next.accepted_total >= base.accepted_total
    &&& next.accept_errors_total >= base.accept_errors_total
    &&& next.accept_errors_transient_total >= base.accept_errors_transient_total
    &&& next.accept_errors_fatal_total >= base.accept_errors_fatal_total
    &&& next.accept_rejected_total >= base.accept_rejected_total
    &&& next.closed_total >= base.closed_total
    &&& next.active_connections >= base.active_connections
    &&& next.read_bytes_total >= base.read_bytes_total
    &&& next.write_bytes_total >= base.write_bytes_total
    &&& next.write_syscalls_total >= base.write_syscalls_total
    &&& next.write_writev_calls_total >= base.write_writev_calls_total
    &&& next.backpressure_enter_total >= base.backpressure_enter_total
    &&& next.backpressure_exit_total >= base.backpressure_exit_total
    &&& next.draining_enter_total >= base.draining_enter_total
    &&& next.draining_exit_total >= base.draining_exit_total
    &&& next.draining_timeout_total >= base.draining_timeout_total
    &&& next.decoded_msgs_total >= base.decoded_msgs_total
    &&& next.decode_errors_total >= base.decode_errors_total
    &&& next.inbound_frame_too_large_total >= base.inbound_frame_too_large_total
    &&& next.flush_limited_total >= base.flush_limited_total
    &&& next.overload_reject_total >= base.overload_reject_total
    &&& next.overload_backpressure_total >= base.overload_backpressure_total
    &&& next.overload_close_total >= base.overload_close_total
    &&& next.app_queue_high_watermark >= base.app_queue_high_watermark
    &&& next.inbound_coalesce_total >= base.inbound_coalesce_total
    &&& next.inbound_copied_bytes_total >= base.inbound_copied_bytes_total
    &&& next.rx_lease_tokens_total >= base.rx_lease_tokens_total
    &&& next.rx_lease_borrowed_bytes_total >= base.rx_lease_borrowed_bytes_total
    &&& next.rx_materialize_bytes_total >= base.rx_materialize_bytes_total
    &&& next.rx_cumulation_copy_bytes_total >= base.rx_cumulation_copy_bytes_total
    &&& next.driver_schedule_interest_sync_total >= base.driver_schedule_interest_sync_total
    &&& next.driver_schedule_reclaim_total >= base.driver_schedule_reclaim_total
    &&& next.driver_schedule_draining_flush_total >= base.driver_schedule_draining_flush_total
    &&& next.driver_schedule_write_kick_total >= base.driver_schedule_write_kick_total
    &&& next.driver_schedule_flush_followup_total >= base.driver_schedule_flush_followup_total
    &&& next.driver_schedule_read_kick_total >= base.driver_schedule_read_kick_total
    &&& next.driver_schedule_stale_skipped_total >= base.driver_schedule_stale_skipped_total
    &&& next.driver_interest_register_total >= base.driver_interest_register_total
    &&& next.driver_interest_register_skipped_total >= base.driver_interest_register_skipped_total
    &&& next.driver_task_submit_total >= base.driver_task_submit_total
    &&& next.driver_task_submit_failed_total >= base.driver_task_submit_failed_total
    &&& next.driver_task_submit_inflight_suppressed_total >= base.driver_task_submit_inflight_suppressed_total
    &&& next.driver_task_submit_paused_suppressed_total >= base.driver_task_submit_paused_suppressed_total
    &&& next.driver_task_finish_total >= base.driver_task_finish_total
    &&& next.driver_task_reclaim_total >= base.driver_task_reclaim_total
    &&& next.driver_task_state_conflict_total >= base.driver_task_state_conflict_total
}

/// Every counter of `a` plus the one of `d` equals the one of `b`.
pub open spec fn sums_to(a: DataPlaneMetricsSnapshot, d: DataPlaneMetricsSnapshot, b: DataPlaneMetricsSnapshot) -> bool {
    &&& a.accepted_total + d.accepted_total == b.accepted_total
    &&& a.accept_errors_total + d.accept_errors_total == b.accept_errors_total
    &&& a.accept_errors_transient_total + d.accept_errors_transient_total == b.accept_errors_transient_total
    &&& a.accept_errors_fatal_total + d.accept_errors_fatal_total == b.accept_errors_fatal_total
    &&& a.accept_rejected_total + d.accept_rejected_total == b.accept_rejected_total
    &&& a.closed_total + d.closed_total == b.closed_total
    &&& a.active_connections + d.active_connections == b.active_connections
    &&& a.read_bytes_total + d.read_bytes_total == b.read_bytes_total
    &&& a.write_bytes_total + d.write_bytes_total == b.write_bytes_total
    &&& a.write_syscalls_total + d.write_syscalls_total == b.write_syscalls_total
    &&& a.write_writev_calls_total + d.write_writev_calls_total == b.write_writev_calls_total
    &&& a.backpressure_enter_total + d.backpressure_enter_total == b.backpressure_enter_total
    &&& a.backpressure_exit_total + d.backpressure_exit_total == b.backpressure_exit_total
    &&& a.draining_enter_total + d.draining_enter_total == b.draining_enter_total
    &&& a.draining_exit_total + d.draining_exit_total == b.draining_exit_total
    &&& a.draining_timeout_total + d.draining_timeout_total == b.draining_timeout_total
    &&& a.decoded_msgs_total + d.decoded_msgs_total == b.decoded_msgs_total
    &&& a.decode_errors_total + d.decode_errors_total == b.decode_errors_total
    &&& a.inbound_frame_too_large_total + d.inbound_frame_too_large_total == b.inbound_frame_too_large_total
    &&& a.flush_limited_total + d.flush_limited_total == b.flush_limited_total
    &&& a.overload_reject_total + d.overload_reject_total == b.overload_reject_total
    &&& a.overload_backpressure_total + d.overload_backpressure_total == b.overload_backpressure_total
    &&& a.overload_close_total + d.overload_close_total == b.overload_close_total
    &&& a.app_queue_high_watermark + d.app_queue_high_watermark == b.app_queue_high_watermark
    &&& a.inbound_coalesce_total + d.inbound_coalesce_total == b.inbound_coalesce_total
    &&& a.inbound_copied_bytes_total + d.inbound_copied_bytes_total == b.inbound_copied_bytes_total
    &&& a.rx_lease_tokens_total + d.rx_lease_tokens_total == b.rx_lease_tokens_total
    &&& a.rx_lease_borrowed_bytes_total + d.rx_lease_borrowed_bytes_total == b.rx_lease_borrowed_bytes_total
    &&& a.rx_materialize_bytes_total + d.rx_materialize_bytes_total == b.rx_materialize_bytes_total
    &&& a.rx_cumulation_copy_bytes_total + d.rx_cumulation_copy_bytes_total == b.rx_cumulation_copy_bytes_total
    &&& a.driver_schedule_interest_sync_total + d.driver_schedule_interest_sync_total == b.driver_schedule_interest_sync_total
    &&& a.driver_schedule_reclaim_total + d.driver_schedule_reclaim_total == b.driver_schedule_reclaim_total
    &&& a.driver_schedule_draining_flush_total + d.driver_schedule_draining_flush_total == b.driver_schedule_draining_flush_total
    &&& a.driver_schedule_write_kick_total + d.driver_schedule_write_kick_total == b.driver_schedule_write_kick_total
    &&& a.driver_schedule_flush_followup_total + d.driver_schedule_flush_followup_total == b.driver_schedule_flush_followup_total
    &&& a.driver_schedule_read_kick_total + d.driver_schedule_read_kick_total == b.driver_schedule_read_kick_total
    &&& a.driver_schedule_stale_skipped_total + d.driver_schedule_stale_skipped_total == b.driver_schedule_stale_skipped_total
    &&& a.driver_interest_register_total + d.driver_interest_register_total == b.driver_interest_register_total
    &&& a.driver_interest_register_skipped_total + d.driver_interest_register_skipped_total == b.driver_interest_register_skipped_total
    &&& a.driver_task_submit_total + d.driver_task_submit_total == b.driver_task_submit_total
    &&& a.driver_task_submit_failed_total + d.driver_task_submit_failed_total == b.driver_task_submit_failed_total
    &&& a.driver_task_submit_inflight_suppressed_total + d.driver_task_submit_inflight_suppressed_total == b.driver_task_submit_inflight_suppressed_total
    &&& a.driver_task_submit_paused_suppressed_total + d.driver_task_submit_paused_suppressed_total == b.driver_task_submit_paused_suppressed_total
    &&& a.driver_task_finish_total + d.driver_task_finish_total == b.driver_task_finish_total
    &&& a.driver_task_reclaim_total + d.driver_task_reclaim_total == b.driver_task_reclaim_total
    &&& a.driver_task_state_conflict_total + d.driver_task_state_conflict_total == b.driver_task_state_conflict_total
}

impl Default for DataPlaneMetrics {
    fn default() -> (m: Self)
        ensures
            snapshot_spec(m) == zero_snapshot(),
    {
        DataPlaneMetrics {
            accepted_total: 0,
            accept_errors_total: 0,
            accept_errors_transient_total: 0,
            accept_errors_fatal_total: 0,
            accept_rejected_total: 0,
            closed_total: 0,
            active_connections: 0,
            read_bytes_total: 0,
            write_bytes_total: 0,
            write_syscalls_total: 0,
            write_writev_calls_total: 0,
            backpressure_enter_total: 0,
            backpressure_exit_total: 0,
            draining_enter_total: 0,
            draining_exit_total: 0,
            draining_timeout_total: 0,
            decoded_msgs_total: 0,
            decode_errors_total: 0,
            inbound_frame_too_large_total: 0,
            flush_limited_total: 0,
            overload_reject_total: 0,
            overload_backpressure_total: 0,
            overload_close_total: 0,
            app_queue_high_watermark: 0,
            inbound_coalesce_total: 0,
            inbound_copied_bytes_total: 0,
            rx_lease_tokens_total: 0,
            rx_lease_borrowed_bytes_total: 0,
            rx_materialize_bytes_total: 0,
            rx_cumulation_copy_bytes_total: 0,
            driver_schedule_interest_sync_total: 0,
            driver_schedule_reclaim_total: 0,
            driver_schedule_draining_flush_total: 0,
            driver_schedule_write_kick_total: 0,
            driver_schedule_flush_followup_total: 0,
            driver_schedule_read_kick_total: 0,
            driver_schedule_stale_skipped_total: 0,
            driver_interest_register_total: 0,
            driver_interest_register_skipped_total: 0,
            driver_task_submit_total: 0,
            driver_task_submit_failed_total: 0,
            driver_task_submit_inflight_suppressed_total: 0,
            driver_task_submit_paused_suppressed_total: 0,
            driver_task_finish_total: 0,
            driver_task_reclaim_total: 0,
            driver_task_state_conflict_total: 0,
        }
    }
}

impl Default for DataPlaneMetricsSnapshot {
    fn default() -> (s: Self)
        ensures
            s == zero_snapshot(),
    {
        DataPlaneMetricsSnapshot {
            accepted_total: 0,
            accept_errors_total: 0,
            accept_errors_transient_total: 0,
            accept_errors_fatal_total: 0,
            accept_rejected_total: 0,
            closed_total: 0,
            active_connections: 0,
            read_bytes_total: 0,
            write_bytes_total: 0,
            write_syscalls_total: 0,
            write_writev_calls_total: 0,
            backpressure_enter_total: 0,
            backpressure_exit_total: 0,
            draining_enter_total: 0,
            draining_exit_total: 0,
            draining_timeout_total: 0,
            decoded_msgs_total: 0,
            decode_errors_total: 0,
            inbound_frame_too_large_total: 0,
            flush_limited_total: 0,
            overload_reject_total: 0,
            overload_backpressure_total: 0,
            overload_close_total: 0,
            app_queue_high_watermark: 0,
            inbound_coalesce_total: 0,
            inbound_copied_bytes_total: 0,
            rx_lease_tokens_total: 0,
            rx_lease_borrowed_bytes_total: 0,
            rx_materialize_bytes_total: 0,
            rx_cumulation_copy_bytes_total: 0,
            driver_schedule_interest_sync_total: 0,
            driver_schedule_reclaim_total: 0,
            driver_schedule_draining_flush_total: 0,
            driver_schedule_write_kick_total: 0,
            driver_schedule_flush_followup_total: 0,
            driver_schedule_read_kick_total: 0,
            driver_schedule_stale_skipped_total: 0,
            driver_interest_register_total: 0,
            driver_interest_register_skipped_total: 0,
            driver_task_submit_total: 0,
            driver_task_submit_failed_total: 0,
            driver_task_submit_inflight_suppressed_total: 0,
            driver_task_submit_paused_suppressed_total: 0,
            driver_task_finish_total: 0,
            driver_task_reclaim_total: 0,
            driver_task_state_conflict_total: 0,
        }
    }
}

/// A snapshot reads every counter for itself: each field of the snapshot is
/// the counter of the same name, with nothing added, swapped or reset.
pub proof fn lemma_snapshot_reads_each_counter(m: DataPlaneMetrics)
    ensures
        snapshot_spec(m).accepted_total == m.accepted_total,
        snapshot_spec(m).accept_errors_total == m.accept_errors_total,
        snapshot_spec(m).accept_errors_transient_total == m.accept_errors_transient_total,
        snapshot_spec(m).accept_errors_fatal_total == m.accept_errors_fatal_total,
        snapshot_spec(m).accept_rejected_total == m.accept_rejected_total,
        snapshot_spec(m).closed_total == m.closed_total,
        snapshot_spec(m).active_connections == m.active_connections,
        snapshot_spec(m).read_bytes_total == m.read_bytes_total,
        snapshot_spec(m).write_bytes_total == m.write_bytes_total,
        snapshot_spec(m).write_syscalls_total == m.write_syscalls_total,
        snapshot_spec(m).write_writev_calls_total == m.write_writev_calls_total,
        snapshot_spec(m).backpressure_enter_total == m.backpressure_enter_total,
        snapshot_spec(m).backpressure_exit_total == m.backpressure_exit_total,
        snapshot_spec(m).draining_enter_total == m.draining_enter_total,
        snapshot_spec(m).draining_exit_total == m.draining_exit_total,
        snapshot_spec(m).draining_timeout_total == m.draining_timeout_total,
        snapshot_spec(m).decoded_msgs_total == m.decoded_msgs_total,
        snapshot_spec(m).decode_errors_total == m.decode_errors_total,
        snapshot_spec(m).inbound_frame_too_large_total == m.inbound_frame_too_large_total,
        snapshot_spec(m).flush_limited_total == m.flush_limited_total,
        snapshot_spec(m).overload_reject_total == m.overload_reject_total,
        snapshot_spec(m).overload_backpressure_total == m.overload_backpressure_total,
        snapshot_spec(m).overload_close_total == m.overload_close_total,
        snapshot_spec(m).app_queue_high_watermark == m.app_queue_high_watermark,
        snapshot_spec(m).inbound_coalesce_total == m.inbound_coalesce_total,
        snapshot_spec(m).inbound_copied_bytes_total == m.inbound_copied_bytes_total,
        snapshot_spec(m).rx_lease_tokens_total == m.rx_lease_tokens_total,
        snapshot_spec(m).rx_lease_borrowed_bytes_total == m.rx_lease_borrowed_bytes_total,
        snapshot_spec(m).rx_materialize_bytes_total == m.rx_materialize_bytes_total,
        snapshot_spec(m).rx_cumulation_copy_bytes_total == m.rx_cumulation_copy_bytes_total,
        snapshot_spec(m).driver_schedule_interest_sync_total == m.driver_schedule_interest_sync_total,
        snapshot_spec(m).driver_schedule_reclaim_total == m.driver_schedule_reclaim_total,
        snapshot_spec(m).driver_schedule_draining_flush_total == m.driver_schedule_draining_flush_total,
        snapshot_spec(m).driver_schedule_write_kick_total == m.driver_schedule_write_kick_total,
        snapshot_spec(m).driver_schedule_flush_followup_total == m.driver_schedule_flush_followup_total,
        snapshot_spec(m).driver_schedule_read_kick_total == m.driver_schedule_read_kick_total,
        snapshot_spec(m).driver_schedule_stale_skipped_total == m.driver_schedule_stale_skipped_total,
        snapshot_spec(m).driver_interest_register_total == m.driver_interest_register_total,
        snapshot_spec(m).driver_interest_register_skipped_total == m.driver_interest_register_skipped_total,
        snapshot_spec(m).driver_task_submit_total == m.driver_task_submit_total,
        snapshot_spec(m).driver_task_submit_failed_total == m.driver_task_submit_failed_total,
        snapshot_spec(m).driver_task_submit_inflight_suppressed_total == m.driver_task_submit_inflight_suppressed_total,
        snapshot_spec(m).driver_task_submit_paused_suppressed_total == m.driver_task_submit_paused_suppressed_total,
        snapshot_spec(m).driver_task_finish_total == m.driver_task_finish_total,
        snapshot_spec(m).driver_task_reclaim_total == m.driver_task_reclaim_total,
        snapshot_spec(m).driver_task_state_conflict_total == m.driver_task_state_conflict_total,
{
}

impl DataPlaneMetrics {
    /// Read every counter.
    pub fn snapshot(&self) -> (s: DataPlaneMetricsSnapshot)
        ensures
            s == snapshot_spec(*self),
    {
        DataPlaneMetricsSnapshot {
            accepted_total: self.accepted_total,
            accept_errors_total: self.accept_errors_total,
            accept_errors_transient_total: self.accept_errors_transient_total,
            accept_errors_fatal_total: self.accept_errors_fatal_total,
            accept_rejected_total: self.accept_rejected_total,
            closed_total: self.closed_total,
            active_connections: self.active_connections,
            read_bytes_total: self.read_bytes_total,
            write_bytes_total: self.write_bytes_total,
            write_syscalls_total: self.write_syscalls_total,
            write_writev_calls_total: self.write_writev_calls_total,
            backpressure_enter_total: self.backpressure_enter_total,
            backpressure_exit_total: self.backpressure_exit_total,
            draining_enter_total: self.draining_enter_total,
            draining_exit_total: self.draining_exit_total,
            draining_timeout_total: self.draining_timeout_total,
            decoded_msgs_total: self.decoded_msgs_total,
            decode_errors_total: self.decode_errors_total,
            inbound_frame_too_large_total: self.inbound_frame_too_large_total,
            flush_limited_total: self.flush_limited_total,
            overload_reject_total: self.overload_reject_total,
            overload_backpressure_total: self.overload_backpressure_total,
            overload_close_total: self.overload_close_total,
            app_queue_high_watermark: self.app_queue_high_watermark,
            inbound_coalesce_total: self.inbound_coalesce_total,
            inbound_copied_bytes_total: self.inbound_copied_bytes_total,
            rx_lease_tokens_total: self.rx_lease_tokens_total,
            rx_lease_borrowed_bytes_total: self.rx_lease_borrowed_bytes_total,
            rx_materialize_bytes_total: self.rx_materialize_bytes_total,
            rx_cumulation_copy_bytes_total: self.rx_cumulation_copy_bytes_total,
            driver_schedule_interest_sync_total: self.driver_schedule_interest_sync_total,
            driver_schedule_reclaim_total: self.driver_schedule_reclaim_total,
            driver_schedule_draining_flush_total: self.driver_schedule_draining_flush_total,
            driver_schedule_write_kick_total: self.driver_schedule_write_kick_total,
            driver_schedule_flush_followup_total: self.driver_schedule_flush_followup_total,
            driver_schedule_read_kick_total: self.driver_schedule_read_kick_total,
            driver_schedule_stale_skipped_total: self.driver_schedule_stale_skipped_total,
            driver_interest_register_total: self.driver_interest_register_total,
            driver_interest_register_skipped_total: self.driver_interest_register_skipped_total,
            driver_task_submit_total: self.driver_task_submit_total,
            driver_task_submit_failed_total: self.driver_task_submit_failed_total,
            driver_task_submit_inflight_suppressed_total: self.driver_task_submit_inflight_suppressed_total,
            driver_task_submit_paused_suppressed_total: self.driver_task_submit_paused_suppressed_total,
            driver_task_finish_total: self.driver_task_finish_total,
            driver_task_reclaim_total: self.driver_task_reclaim_total,
            driver_task_state_conflict_total: self.driver_task_state_conflict_total,
        }
    }

    /// Count bytes read.
    pub fn record_read(&mut self, bytes: usize)
        ensures
            *final(self) == (DataPlaneMetrics {
                read_bytes_total: wrap_add(old(self).read_bytes_total, bytes as u64),
                ..*old(self)
            }),
    {
        if bytes > 0 {
            self.read_bytes_total = add_wrapping(self.read_bytes_total, as_u64(bytes));
        }
    }

    /// Count bytes written and the write calls it took.
    pub fn record_write(&mut self, bytes: usize, syscalls: u64, writev_calls: u64)
        ensures
            *final(self) == (DataPlaneMetrics {
                write_bytes_total: wrap_add(old(self).write_bytes_total, bytes as u64),
                write_syscalls_total: wrap_add(old(self).write_syscalls_total, syscalls),
                write_writev_calls_total: wrap_add(old(self).write_writev_calls_total, writev_calls),
                ..*old(self)
            }),
    {
        if bytes > 0 {
            self.write_bytes_total = add_wrapping(self.write_bytes_total, as_u64(bytes));
        }
        if syscalls > 0 {
            self.write_syscalls_total = add_wrapping(self.write_syscalls_total, syscalls);
        }
        if writev_calls > 0 {
            self.write_writev_calls_total = add_wrapping(self.write_writev_calls_total, writev_calls);
        }
    }

    /// Count decoded messages, decode errors and oversized frames.
    pub fn record_decode(&mut self, decoded: usize, decode_errs: usize, too_large: u64)
        ensures
            *final(self) == (DataPlaneMetrics {
                decoded_msgs_total: wrap_add(old(self).decoded_msgs_total, decoded as u64),
                decode_errors_total: wrap_add(old(self).decode_errors_total, decode_errs as u64),
                inbound_frame_too_large_total: wrap_add(old(self).inbound_frame_too_large_total, too_large),
                ..*old(self)
            }),
    {
        if decoded > 0 {
            self.decoded_msgs_total = add_wrapping(self.decoded_msgs_total, as_u64(decoded));
        }
        if decode_errs > 0 {
            self.decode_errors_total = add_wrapping(self.decode_errors_total, as_u64(decode_errs));
        }
        if too_large > 0 {
            self.inbound_frame_too_large_total = add_wrapping(self.inbound_frame_too_large_total, too_large);
        }
    }

    /// Count coalescing copies on the stream read path.
    pub fn record_inbound_cumulation(&mut self, coalesce_count: u64, copied_bytes: u64)
        ensures
            *final(self) == (DataPlaneMetrics {
                inbound_coalesce_total: wrap_add(old(self).inbound_coalesce_total, coalesce_count),
                inbound_copied_bytes_total: wrap_add(old(self).inbound_copied_bytes_total, copied_bytes),
                ..*old(self)
            }),
    {
        if coalesce_count > 0 {
            self.inbound_coalesce_total = add_wrapping(self.inbound_coalesce_total, coalesce_count);
        }
        if copied_bytes > 0 {
            self.inbound_copied_bytes_total = add_wrapping(self.inbound_copied_bytes_total, copied_bytes);
        }
    }

    /// Count bytes copied into the receive cumulation.
    pub fn record_rx_cumulation_copy(&mut self, copied_bytes: u64)
        ensures
            *final(self) == (DataPlaneMetrics {
                rx_cumulation_copy_bytes_total: wrap_add(old(self).rx_cumulation_copy_bytes_total, copied_bytes),
                ..*old(self)
            }),
    {
        if copied_bytes > 0 {
            self.rx_cumulation_copy_bytes_total = add_wrapping(self.rx_cumulation_copy_bytes_total, copied_bytes);
        }
    }

    /// Count leased receive tokens and the bytes they lent.
    pub fn record_rx_lease(&mut self, tokens: u64, borrowed_bytes: u64)
        ensures
            *final(self) == (DataPlaneMetrics {
                rx_lease_tokens_total: wrap_add(old(self).rx_lease_tokens_total, tokens),
                rx_lease_borrowed_bytes_total: wrap_add(old(self).rx_lease_borrowed_bytes_total, borrowed_bytes),
                ..*old(self)
            }),
    {
        if tokens > 0 {
            self.rx_lease_tokens_total = add_wrapping(self.rx_lease_tokens_total, tokens);
        }
        if borrowed_bytes > 0 {
            self.rx_lease_borrowed_bytes_total = add_wrapping(self.rx_lease_borrowed_bytes_total, borrowed_bytes);
        }
    }

    /// Count bytes copied out of leased tokens.
    pub fn record_rx_materialize(&mut self, bytes: u64)
        ensures
            *final(self) == (DataPlaneMetrics {
                rx_materialize_bytes_total: wrap_add(old(self).rx_materialize_bytes_total, bytes),
                ..*old(self)
            }),
    {
        if bytes > 0 {
            self.rx_materialize_bytes_total = add_wrapping(self.rx_materialize_bytes_total, bytes);
        }
    }

    /// Count a flush that stopped on its budget.
    pub fn record_flush_limited(&mut self)
        ensures
            *final(self) == (DataPlaneMetrics {
                flush_limited_total: wrap_add(old(self).flush_limited_total, 1),
                ..*old(self)
            }),
    {
        self.flush_limited_total = add_wrapping(self.flush_limited_total, 1);
    }

    /// Count requests rejected under overload.
    pub fn record_overload_reject(&mut self, count: u64)
        ensures
            *final(self) == (DataPlaneMetrics {
                overload_reject_total: wrap_add(old(self).overload_reject_total, count),
                ..*old(self)
            }),
    {
        if count > 0 {
            self.overload_reject_total = add_wrapping(self.overload_reject_total, count);
        }
    }

    /// Count overload backpressure episodes.
    pub fn record_overload_backpressure(&mut self, count: u64)
        ensures
            *final(self) == (DataPlaneMetrics {
                overload_backpressure_total: wrap_add(old(self).overload_backpressure_total, count),
                ..*old(self)
            }),
    {
        if count > 0 {
            self.overload_backpressure_total = add_wrapping(self.overload_backpressure_total, count);
        }
    }

    /// Count channels closed under overload.
    pub fn record_overload_close(&mut self, count: u64)
        ensures
            *final(self) == (DataPlaneMetrics {
                overload_close_total: wrap_add(old(self).overload_close_total, count),
                ..*old(self)
            }),
    {
        if count > 0 {
            self.overload_close_total = add_wrapping(self.overload_close_total, count);
        }
    }

    /// Raise the application queue high watermark to `queue_len` if higher.
    pub fn observe_app_queue_high_watermark(&mut self, queue_len: u64)
        ensures
            *final(self) == (DataPlaneMetrics {
                app_queue_high_watermark: if queue_len > old(self).app_queue_high_watermark {
                    queue_len
                } else {
                    old(self).app_queue_high_watermark
                },
                ..*old(self)
            }),
    {
        if queue_len > self.app_queue_high_watermark {
            self.app_queue_high_watermark = queue_len;
        }
    }
}

impl DataPlaneMetricsSnapshot {
    /// Per-counter saturating difference from `base` to `self`.
    pub fn saturating_delta_since(&self, base: &Self) -> (d: Self)
        ensures
            d == delta_spec(*self, *base),
    {
        DataPlaneMetricsSnapshot {
            accepted_total: self.accepted_total.saturating_sub(base.accepted_total),
            accept_errors_total: self.accept_errors_total.saturating_sub(base.accept_errors_total),
            accept_errors_transient_total: self.accept_errors_transient_total.saturating_sub(base.accept_errors_transient_total),
            accept_errors_fatal_total: self.accept_errors_fatal_total.saturating_sub(base.accept_errors_fatal_total),
            accept_rejected_total: self.accept_rejected_total.saturating_sub(base.accept_rejected_total),
            closed_total: self.closed_total.saturating_sub(base.closed_total),
            active_connections: self.active_connections.saturating_sub(base.active_connections),
            read_bytes_total: self.read_bytes_total.saturating_sub(base.read_bytes_total),
            write_bytes_total: self.write_bytes_total.saturating_sub(base.write_bytes_total),
            write_syscalls_total: self.write_syscalls_total.saturating_sub(base.write_syscalls_total),
            write_writev_calls_total: self.write_writev_calls_total.saturating_sub(base.write_writev_calls_total),
            backpressure_enter_total: self.backpressure_enter_total.saturating_sub(base.backpressure_enter_total),
            backpressure_exit_total: self.backpressure_exit_total.saturating_sub(base.backpressure_exit_total),
            draining_enter_total: self.draining_enter_total.saturating_sub(base.draining_enter_total),
            draining_exit_total: self.draining_exit_total.saturating_sub(base.draining_exit_total),
            draining_timeout_total: self.draining_timeout_total.saturating_sub(base.draining_timeout_total),
            decoded_msgs_total: self.decoded_msgs_total.saturating_sub(base.decoded_msgs_total),
            decode_errors_total: self.decode_errors_total.saturating_sub(base.decode_errors_total),
            inbound_frame_too_large_total: self.inbound_frame_too_large_total.saturating_sub(base.inbound_frame_too_large_total),
            flush_limited_total: self.flush_limited_total.saturating_sub(base.flush_limited_total),
            overload_reject_total: self.overload_reject_total.saturating_sub(base.overload_reject_total),
            overload_backpressure_total: self.overload_backpressure_total.saturating_sub(base.overload_backpressure_total),
            overload_close_total: self.overload_close_total.saturating_sub(base.overload_close_total),
            app_queue_high_watermark: self.app_queue_high_watermark.saturating_sub(base.app_queue_high_watermark),
            inbound_coalesce_total: self.inbound_coalesce_total.saturating_sub(base.inbound_coalesce_total),
            inbound_copied_bytes_total: self.inbound_copied_bytes_total.saturating_sub(base.inbound_copied_bytes_total),
            rx_lease_tokens_total: self.rx_lease_tokens_total.saturating_sub(base.rx_lease_tokens_total),
            rx_lease_borrowed_bytes_total: self.rx_lease_borrowed_bytes_total.saturating_sub(base.rx_lease_borrowed_bytes_total),
            rx_materialize_bytes_total: self.rx_materialize_bytes_total.saturating_sub(base.rx_materialize_bytes_total),
            rx_cumulation_copy_bytes_total: self.rx_cumulation_copy_bytes_total.saturating_sub(base.rx_cumulation_copy_bytes_total),
            driver_schedule_interest_sync_total: self.driver_schedule_interest_sync_total.saturating_sub(base.driver_schedule_interest_sync_total),
            driver_schedule_reclaim_total: self.driver_schedule_reclaim_total.saturating_sub(base.driver_schedule_reclaim_total),
            driver_schedule_draining_flush_total: self.driver_schedule_draining_flush_total.saturating_sub(base.driver_schedule_draining_flush_total),
            driver_schedule_write_kick_total: self.driver_schedule_write_kick_total.saturating_sub(base.driver_schedule_write_kick_total),
            driver_schedule_flush_followup_total: self.driver_schedule_flush_followup_total.saturating_sub(base.driver_schedule_flush_followup_total),
            driver_schedule_read_kick_total: self.driver_schedule_read_kick_total.saturating_sub(base.driver_schedule_read_kick_total),
            driver_schedule_stale_skipped_total: self.driver_schedule_stale_skipped_total.saturating_sub(base.driver_schedule_stale_skipped_total),
            driver_interest_register_total: self.driver_interest_register_total.saturating_sub(base.driver_interest_register_total),
            driver_interest_register_skipped_total: self.driver_interest_register_skipped_total.saturating_sub(base.driver_interest_register_skipped_total),
            driver_task_submit_total: self.driver_task_submit_total.saturating_sub(base.driver_task_submit_total),
            driver_task_submit_failed_total: self.driver_task_submit_failed_total.saturating_sub(base.driver_task_submit_failed_total),
            driver_task_submit_inflight_suppressed_total: self.driver_task_submit_inflight_suppressed_total.saturating_sub(base.driver_task_submit_inflight_suppressed_total),
            driver_task_submit_paused_suppressed_total: self.driver_task_submit_paused_suppressed_total.saturating_sub(base.driver_task_submit_paused_suppressed_total),
            driver_task_finish_total: self.driver_task_finish_total.saturating_sub(base.driver_task_finish_total),
            driver_task_reclaim_total: self.driver_task_reclaim_total.saturating_sub(base.driver_task_reclaim_total),
            driver_task_state_conflict_total: self.driver_task_state_conflict_total.saturating_sub(base.driver_task_state_conflict_total),
        }
    }
}

/// Each counter of a delta is the later reading minus the base reading of
/// the same counter, or zero when the counter went backwards.
pub proof fn lemma_delta_each_counter(next: DataPlaneMetricsSnapshot, base: DataPlaneMetricsSnapshot)
    ensures
        delta_spec(next, base).accepted_total as int == (if next.accepted_total >= base.accepted_total { next.accepted_total - base.accepted_total } else { 0 }),
        delta_spec(next, base).accept_errors_total as int == (if next.accept_errors_total >= base.accept_errors_total { next.accept_errors_total - base.accept_errors_total } else { 0 }),
        delta_spec(next, base).accept_errors_transient_total as int == (if next.accept_errors_transient_total >= base.accept_errors_transient_total { next.accept_errors_transient_total - base.accept_errors_transient_total } else { 0 }),
        delta_spec(next, base).accept_errors_fatal_total as int == (if next.accept_errors_fatal_total >= base.accept_errors_fatal_total { next.accept_errors_fatal_total - base.accept_errors_fatal_total } else { 0 }),
        delta_spec(next, base).accept_rejected_total as int == (if next.accept_rejected_total >= base.accept_rejected_total { next.accept_rejected_total - base.accept_rejected_total } else { 0 }),
        delta_spec(next, base).closed_total as int == (if next.closed_total >= base.closed_total { next.closed_total - base.closed_total } else { 0 }),
        delta_spec(next, base).active_connections as int == (if next.active_connections >= base.active_connections { next.active_connections - base.active_connections } else { 0 }),
        delta_spec(next, base).read_bytes_total as int == (if next.read_bytes_total >= base.read_bytes_total { next.read_bytes_total - base.read_bytes_total } else { 0 }),
        delta_spec(next, base).write_bytes_total as int == (if next.write_bytes_total >= base.write_bytes_total { next.write_bytes_total - base.write_bytes_total } else { 0 }),
        delta_spec(next, base).write_syscalls_total as int == (if next.write_syscalls_total >= base.write_syscalls_total { next.write_syscalls_total - base.write_syscalls_total } else { 0 }),
        delta_spec(next, base).write_writev_calls_total as int == (if next.write_writev_calls_total >= base.write_writev_calls_total { next.write_writev_calls_total - base.write_writev_calls_total } else { 0 }),
        delta_spec(next, base).backpressure_enter_total as int == (if next.backpressure_enter_total >= base.backpressure_enter_total { next.backpressure_enter_total - base.backpressure_enter_total } else { 0 }),
        delta_spec(next, base).backpressure_exit_total as int == (if next.backpressure_exit_total >= base.backpressure_exit_total { next.backpressure_exit_total - base.backpressure_exit_total } else { 0 }),
        delta_spec(next, base).draining_enter_total as int == (if next.draining_enter_total >= base.draining_enter_total { next.draining_enter_total - base.draining_enter_total } else { 0 }),
        delta_spec(next, base).draining_exit_total as int == (if next.draining_exit_total >= base.draining_exit_total { next.draining_exit_total - base.draining_exit_total } else { 0 }),
        delta_spec(next, base).draining_timeout_total as int == (if next.draining_timeout_total >= base.draining_timeout_total { next.draining_timeout_total - base.draining_timeout_total } else { 0 }),
        delta_spec(next, base).decoded_msgs_total as int == (if next.decoded_msgs_total >= base.decoded_msgs_total { next.decoded_msgs_total - base.decoded_msgs_total } else { 0 }),
        delta_spec(next, base).decode_errors_total as int == (if next.decode_errors_total >= base.decode_errors_total { next.decode_errors_total - base.decode_errors_total } else { 0 }),
        delta_spec(next, base).inbound_frame_too_large_total as int == (if next.inbound_frame_too_large_total >= base.inbound_frame_too_large_total { next.inbound_frame_too_large_total - base.inbound_frame_too_large_total } else { 0 }),
        delta_spec(next, base).flush_limited_total as int == (if next.flush_limited_total >= base.flush_limited_total { next.flush_limited_total - base.flush_limited_total } else { 0 }),
        delta_spec(next, base).overload_reject_total as int == (if next.overload_reject_total >= base.overload_reject_total { next.overload_reject_total - base.overload_reject_total } else { 0 }),
        delta_spec(next, base).overload_backpressure_total as int == (if next.overload_backpressure_total >= base.overload_backpressure_total { next.overload_backpressure_total - base.overload_backpressure_total } else { 0 }),
        delta_spec(next, base).overload_close_total as int == (if next.overload_close_total >= base.overload_close_total { next.overload_close_total - base.overload_close_total } else { 0 }),
        delta_spec(next, base).app_queue_high_watermark as int == (if next.app_queue_high_watermark >= base.app_queue_high_watermark { next.app_queue_high_watermark - base.app_queue_high_watermark } else { 0 }),
        delta_spec(next, base).inbound_coalesce_total as int == (if next.inbound_coalesce_total >= base.inbound_coalesce_total { next.inbound_coalesce_total - base.inbound_coalesce_total } else { 0 }),
        delta_spec(next, base).inbound_copied_bytes_total as int == (if next.inbound_copied_bytes_total >= base.inbound_copied_bytes_total { next.inbound_copied_bytes_total - base.inbound_copied_bytes_total } else { 0 }),
        delta_spec(next, base).rx_lease_tokens_total as int == (if next.rx_lease_tokens_total >= base.rx_lease_tokens_total { next.rx_lease_tokens_total - base.rx_lease_tokens_total } else { 0 }),
        delta_spec(next, base).rx_lease_borrowed_bytes_total as int == (if next.rx_lease_borrowed_bytes_total >= base.rx_lease_borrowed_bytes_total { next.rx_lease_borrowed_bytes_total - base.rx_lease_borrowed_bytes_total } else { 0 }),
        delta_spec(next, base).rx_materialize_bytes_total as int == (if next.rx_materialize_bytes_total >= base.rx_materialize_bytes_total { next.rx_materialize_bytes_total - base.rx_materialize_bytes_total } else { 0 }),
        delta_spec(next, base).rx_cumulation_copy_bytes_total as int == (if next.rx_cumulation_copy_bytes_total >= base.rx_cumulation_copy_bytes_total { next.rx_cumulation_copy_bytes_total - base.rx_cumulation_copy_bytes_total } else { 0 }),
        delta_spec(next, base).driver_schedule_interest_sync_total as int == (if next.driver_schedule_interest_sync_total >= base.driver_schedule_interest_sync_total { next.driver_schedule_interest_sync_total - base.driver_schedule_interest_sync_total } else { 0 }),
        delta_spec(next, base).driver_schedule_reclaim_total as int == (if next.driver_schedule_reclaim_total >= base.driver_schedule_reclaim_total { next.driver_schedule_reclaim_total - base.driver_schedule_reclaim_total } else { 0 }),
        delta_spec(next, base).driver_schedule_draining_flush_total as int == (if next.driver_schedule_draining_flush_total >= base.driver_schedule_draining_flush_total { next.driver_schedule_draining_flush_total - base.driver_schedule_draining_flush_total } else { 0 }),
        delta_spec(next, base).driver_schedule_write_kick_total as int == (if next.driver_schedule_write_kick_total >= base.driver_schedule_write_kick_total { next.driver_schedule_write_kick_total - base.driver_schedule_write_kick_total } else { 0 }),
        delta_spec(next, base).driver_schedule_flush_followup_total as int == (if next.driver_schedule_flush_followup_total >= base.driver_schedule_flush_followup_total { next.driver_schedule_flush_followup_total - base.driver_schedule_flush_followup_total } else { 0 }),
        delta_spec(next, base).driver_schedule_read_kick_total as int == (if next.driver_schedule_read_kick_total >= base.driver_schedule_read_kick_total { next.driver_schedule_read_kick_total - base.driver_schedule_read_kick_total } else { 0 }),
        delta_spec(next, base).driver_schedule_stale_skipped_total as int == (if next.driver_schedule_stale_skipped_total >= base.driver_schedule_stale_skipped_total { next.driver_schedule_stale_skipped_total - base.driver_schedule_stale_skipped_total } else { 0 }),
        delta_spec(next, base).driver_interest_register_total as int == (if next.driver_interest_register_total >= base.driver_interest_register_total { next.driver_interest_register_total - base.driver_interest_register_total } else { 0 }),
        delta_spec(next, base).driver_interest_register_skipped_total as int == (if next.driver_interest_register_skipped_total >= base.driver_interest_register_skipped_total { next.driver_interest_register_skipped_total - base.driver_interest_register_skipped_total } else { 0 }),
        delta_spec(next, base).driver_task_submit_total as int == (if next.driver_task_submit_total >= base.driver_task_submit_total { next.driver_task_submit_total - base.driver_task_submit_total } else { 0 }),
        delta_spec(next, base).driver_task_submit_failed_total as int == (if next.driver_task_submit_failed_total >= base.driver_task_submit_failed_total { next.driver_task_submit_failed_total - base.driver_task_submit_failed_total } else { 0 }),
        delta_spec(next, base).driver_task_submit_inflight_suppressed_total as int == (if next.driver_task_submit_inflight_suppressed_total >= base.driver_task_submit_inflight_suppressed_total { next.driver_task_submit_inflight_suppressed_total - base.driver_task_submit_inflight_suppressed_total } else { 0 }),
        delta_spec(next, base).driver_task_submit_paused_suppressed_total as int == (if next.driver_task_submit_paused_suppressed_total >= base.driver_task_submit_paused_suppressed_total { next.driver_task_submit_paused_suppressed_total - base.driver_task_submit_paused_suppressed_total } else { 0 }),
        delta_spec(next, base).driver_task_finish_total as int == (if next.driver_task_finish_total >= base.driver_task_finish_total { next.driver_task_finish_total - base.driver_task_finish_total } else { 0 }),
        delta_spec(next, base).driver_task_reclaim_total as int == (if next.driver_task_reclaim_total >= base.driver_task_reclaim_total { next.driver_task_reclaim_total - base.driver_task_reclaim_total } else { 0 }),
        delta_spec(next, base).driver_task_state_conflict_total as int == (if next.driver_task_state_conflict_total >= base.driver_task_state_conflict_total { next.driver_task_state_conflict_total - base.driver_task_state_conflict_total } else { 0 }),
{
}

/// Counting adds exactly, until the counter wraps past `u64::MAX`; a
/// saturating difference is exact when it does not go below zero.
pub proof fn lemma_counter_arith(a: u64, b: u64)
    ensures
        a as int + b as int <= u64::MAX ==> wrap_add(a, b) as int == a + b,
        a as int + b as int > u64::MAX ==> wrap_add(a, b) as int == a + b - 0x1_0000_0000_0000_0000,
        a >= b ==> sat_sub(a, b) as int == a - b,
        a < b ==> sat_sub(a, b) == 0,
{
}

/// Over an interval in which no counter went backwards, the base plus the
/// delta gives back the later snapshot.
pub proof fn lemma_delta_preserves_intervals(base: DataPlaneMetricsSnapshot, next: DataPlaneMetricsSnapshot)
    requires
        dominates(next, base),
    ensures
        sums_to(base, delta_spec(next, base), next),
{
}

/// A counter that went backwards reads as a zero delta.
pub proof fn lemma_delta_saturates(base: DataPlaneMetricsSnapshot, next: DataPlaneMetricsSnapshot)
    requires
        dominates(base, next),
    ensures
        delta_spec(next, base) == zero_snapshot(),
{
}

} // verus!
