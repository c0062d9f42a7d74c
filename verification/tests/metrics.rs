use spark_transport::metrics::{DataPlaneMetrics, DataPlaneMetricsSnapshot};

#[test]
fn snapshot_reads_all_counters() {
    let mut m = DataPlaneMetrics::default();
    m.accepted_total = 7;
    m.write_bytes_total = 2048;
    m.write_syscalls_total = 4;
    m.write_writev_calls_total = 2;

    let snap = m.snapshot();
    assert_eq!(snap.accepted_total, 7);
    assert_eq!(snap.write_bytes_total, 2048);
    assert_eq!(snap.write_syscalls_total, 4);
    assert_eq!(snap.write_writev_calls_total, 2);
}

#[test]
fn helper_recorders_update_expected_counters() {
    let mut m = DataPlaneMetrics::default();
    m.record_read(4096);
    m.record_write(2048, 4, 2);
    m.record_decode(5, 1, 2);
    m.record_inbound_cumulation(3, 1024);
    m.record_rx_lease(2, 2048);
    m.record_rx_materialize(128);
    m.record_rx_cumulation_copy(4096);
    m.record_flush_limited();
    m.record_overload_reject(2);
    m.record_overload_backpressure(3);
    m.record_overload_close(1);
    m.observe_app_queue_high_watermark(6);
    m.observe_app_queue_high_watermark(4);

    let snap = m.snapshot();
    assert_eq!(snap.read_bytes_total, 4096);
    assert_eq!(snap.write_bytes_total, 2048);
    assert_eq!(snap.write_syscalls_total, 4);
    assert_eq!(snap.write_writev_calls_total, 2);
    assert_eq!(snap.decoded_msgs_total, 5);
    assert_eq!(snap.decode_errors_total, 1);
    assert_eq!(snap.inbound_frame_too_large_total, 2);
    assert_eq!(snap.inbound_coalesce_total, 3);
    assert_eq!(snap.inbound_copied_bytes_total, 1024);
    assert_eq!(snap.rx_lease_tokens_total, 2);
    assert_eq!(snap.rx_lease_borrowed_bytes_total, 2048);
    assert_eq!(snap.rx_materialize_bytes_total, 128);
    assert_eq!(snap.rx_cumulation_copy_bytes_total, 4096);
    assert_eq!(snap.flush_limited_total, 1);
    assert_eq!(snap.overload_reject_total, 2);
    assert_eq!(snap.overload_backpressure_total, 3);
    assert_eq!(snap.overload_close_total, 1);
    assert_eq!(snap.app_queue_high_watermark, 6);
}

#[test]
fn delta_is_saturating_and_preserves_intervals() {
    let base = DataPlaneMetricsSnapshot {
        write_bytes_total: 1024,
        write_syscalls_total: 2,
        ..DataPlaneMetricsSnapshot::default()
    };
    let next = DataPlaneMetricsSnapshot {
        write_bytes_total: 4096,
        write_syscalls_total: 5,
        write_writev_calls_total: 3,
        ..DataPlaneMetricsSnapshot::default()
    };

    let delta = next.saturating_delta_since(&base);
    assert_eq!(delta.write_bytes_total, 3072);
    assert_eq!(delta.write_syscalls_total, 3);
    assert_eq!(delta.write_writev_calls_total, 3);

    let zeroed = base.saturating_delta_since(&next);
    assert_eq!(zeroed.write_bytes_total, 0);
    assert_eq!(zeroed.write_syscalls_total, 0);
}

#[test]
fn counters_wrap_instead_of_overflowing() {
    let mut m = DataPlaneMetrics::default();
    m.read_bytes_total = u64::MAX;
    m.record_read(2);
    assert_eq!(m.snapshot().read_bytes_total, 1);
}

#[test]
fn delta_of_a_snapshot_with_itself_is_zero() {
    let mut m = DataPlaneMetrics::default();
    m.record_write(10, 2, 1);
    m.record_overload_close(4);
    let s = m.snapshot();
    assert_eq!(s.saturating_delta_since(&s), DataPlaneMetricsSnapshot::default());
}
