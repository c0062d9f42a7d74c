use spark_transport::io::{
    classify_accept_error, classify_connect_error, classify_connected_udp_recv_error,
    classify_io_error, AcceptDecision, ConnectDecision, IoErrorInfo, IoErrorKind, OsFamily,
};
use spark_transport::policy::{AcceptPolicy, ConnectPolicy, FlushBudget, FlushPolicy, WatermarkPolicy};
use spark_transport::uci::KernelError;

fn err(kind: IoErrorKind) -> IoErrorInfo {
    IoErrorInfo { kind, raw_os_error: None, os: OsFamily::Unix }
}

fn raw(kind: IoErrorKind, code: i32, os: OsFamily) -> IoErrorInfo {
    IoErrorInfo { kind, raw_os_error: Some(code), os }
}

#[test]
fn connrefused_is_transient() {
    let e = err(IoErrorKind::ConnectionRefused);
    assert_eq!(classify_connected_udp_recv_error(&e), KernelError::WouldBlock);
}

#[test]
fn wouldblock_is_in_progress() {
    let e = err(IoErrorKind::WouldBlock);
    assert_eq!(classify_connect_error(&e), ConnectDecision::InProgress);
}

#[test]
fn watermark_policy_is_sane() {
    let p = WatermarkPolicy::default();
    let (h, l) = p.watermarks(1024);
    assert!(h > l);
}

#[test]
fn flush_policy_is_sane() {
    let p = FlushPolicy::default();
    let b = p.budget(64 * 1024);
    assert!(b.max_bytes > 0);
    assert!(b.max_syscalls > 0);
    assert!(b.max_iov > 0);
}

#[test]
fn policies_are_constructible() {
    let _a = AcceptPolicy;
    let _c = ConnectPolicy;
}

#[test]
fn io_errors_map_to_kernel_categories() {
    assert_eq!(classify_io_error(&err(IoErrorKind::WouldBlock)), KernelError::WouldBlock);
    assert_eq!(classify_io_error(&err(IoErrorKind::Interrupted)), KernelError::Interrupted);
    assert_eq!(classify_io_error(&err(IoErrorKind::TimedOut)), KernelError::Timeout);
    assert_eq!(classify_io_error(&err(IoErrorKind::ConnectionReset)), KernelError::Reset);
    assert_eq!(classify_io_error(&err(IoErrorKind::BrokenPipe)), KernelError::Closed);
    assert_eq!(classify_io_error(&err(IoErrorKind::InvalidInput)), KernelError::Closed);
    assert_eq!(
        classify_io_error(&err(IoErrorKind::Other)),
        KernelError::Internal(spark_transport::error_codes::ERR_IO_UNKNOWN)
    );
}

#[test]
fn raw_os_codes_pass_through_with_their_subsystem() {
    let unix = classify_io_error(&raw(IoErrorKind::Other, 5, OsFamily::Unix));
    assert_eq!(unix, KernelError::Internal(0x1000_0005));
    let win = classify_io_error(&raw(IoErrorKind::Other, 5, OsFamily::Windows));
    assert_eq!(win, KernelError::Internal(0x1100_0005));
    assert_eq!(
        classify_io_error(&raw(IoErrorKind::Other, 10035, OsFamily::Windows)),
        KernelError::WouldBlock
    );
    assert_eq!(
        classify_io_error(&raw(IoErrorKind::Other, 10054, OsFamily::Windows)),
        KernelError::Reset
    );
    assert_eq!(
        classify_io_error(&raw(IoErrorKind::Other, 10061, OsFamily::Windows)),
        KernelError::Closed
    );
}

#[test]
fn accept_errors_stop_continue_or_fail() {
    assert_eq!(classify_accept_error(&err(IoErrorKind::WouldBlock)), AcceptDecision::Stop);
    assert_eq!(classify_accept_error(&err(IoErrorKind::Interrupted)), AcceptDecision::Continue);
    assert_eq!(classify_accept_error(&err(IoErrorKind::ConnectionAborted)), AcceptDecision::Continue);
    assert_eq!(
        classify_accept_error(&raw(IoErrorKind::Other, 10054, OsFamily::Windows)),
        AcceptDecision::Continue
    );
    assert_eq!(
        classify_accept_error(&err(IoErrorKind::BrokenPipe)),
        AcceptDecision::Fatal(KernelError::Closed)
    );
    assert_eq!(AcceptPolicy.decide(&err(IoErrorKind::WouldBlock)), AcceptDecision::Stop);
}

#[test]
fn connect_errors_in_progress_or_fatal() {
    assert_eq!(
        classify_connect_error(&raw(IoErrorKind::Other, 10036, OsFamily::Windows)),
        ConnectDecision::InProgress
    );
    assert_eq!(
        classify_connect_error(&raw(IoErrorKind::Other, 10036, OsFamily::Unix)),
        ConnectDecision::Fatal(KernelError::Internal(0x1000_0000 + 10036))
    );
    assert_eq!(
        ConnectPolicy.decide(&err(IoErrorKind::TimedOut)),
        ConnectDecision::Fatal(KernelError::Timeout)
    );
}

#[test]
fn udp_reset_is_transient_but_other_errors_are_not() {
    assert_eq!(
        classify_connected_udp_recv_error(&err(IoErrorKind::ConnectionReset)),
        KernelError::WouldBlock
    );
    assert_eq!(
        classify_connected_udp_recv_error(&raw(IoErrorKind::Other, 10054, OsFamily::Windows)),
        KernelError::WouldBlock
    );
    assert_eq!(
        classify_connected_udp_recv_error(&err(IoErrorKind::BrokenPipe)),
        KernelError::Closed
    );
}

#[test]
fn watermarks_follow_the_larger_frame_and_saturate() {
    let p = WatermarkPolicy::default();
    assert_eq!(p.watermarks(100), (8 * 1024, 4 * 1024));
    assert_eq!(p.watermarks(4096), (8 * 4096, 4 * 4096));
    assert_eq!(p.watermarks(usize::MAX), (usize::MAX, usize::MAX));
}

#[test]
fn flush_budget_is_clamped() {
    let p = FlushPolicy { min_frame: 1, max_bytes_mul: 0, max_bytes_cap: 10, max_syscalls: 0, max_iov: 100 };
    let b = p.budget(5);
    assert_eq!(b, FlushBudget { max_bytes: 1, max_syscalls: 1, max_iov: 16 });
    let q = FlushPolicy { min_frame: 1, max_bytes_mul: 4, max_bytes_cap: 10, max_syscalls: 3, max_iov: 0 };
    assert_eq!(q.budget(5), FlushBudget { max_bytes: 10, max_syscalls: 3, max_iov: 1 });
    assert_eq!(FlushBudget::new(7, 2).with_max_iov(3), FlushBudget { max_bytes: 7, max_syscalls: 2, max_iov: 3 });
}
