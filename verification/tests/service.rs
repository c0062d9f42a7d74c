use spark_transport::pipeline::service::{
    Admission, AppOverloadStats, AppServiceHandler, AppServiceOptions, OverloadAction,
};

fn count(adm: &[Admission], want: fn(&Admission) -> bool) -> usize {
    adm.iter().filter(|a| want(a)).count()
}

#[test]
fn queue_upper_bound_enforced_with_fail_fast() {
    let opts = AppServiceOptions {
        max_inflight_per_connection: 1,
        max_queue_per_connection: 1,
        overload_action: OverloadAction::FailFast,
    };
    let mut h = AppServiceHandler::new(opts);

    let adm = vec![
        h.channel_read(b"a".to_vec()),
        h.channel_read(b"b".to_vec()),
        h.channel_read(b"c".to_vec()),
    ];

    assert_eq!(count(&adm, |a| matches!(a, Admission::Rejected)), 1);
    let stats = h.take_overload_stats();
    assert_eq!(stats.reject_total, 1);
    assert_eq!(stats.queue_high_watermark, 1);
}

#[test]
fn overload_backpressure_signal_emitted() {
    let opts = AppServiceOptions {
        max_inflight_per_connection: 1,
        max_queue_per_connection: 0,
        overload_action: OverloadAction::Backpressure,
    };
    let mut h = AppServiceHandler::new(opts);

    let adm = vec![h.channel_read(b"a".to_vec()), h.channel_read(b"b".to_vec())];

    assert_eq!(count(&adm, |a| matches!(a, Admission::Backpressure)), 1);
    let stats = h.take_overload_stats();
    assert_eq!(stats.backpressure_total, 1);
}

#[test]
fn overload_can_close_connection() {
    let opts = AppServiceOptions {
        max_inflight_per_connection: 1,
        max_queue_per_connection: 0,
        overload_action: OverloadAction::CloseConnection,
    };
    let mut h = AppServiceHandler::new(opts);

    let adm = vec![h.channel_read(b"a".to_vec()), h.channel_read(b"b".to_vec())];

    assert_eq!(count(&adm, |a| matches!(a, Admission::Close)), 1);
    let stats = h.take_overload_stats();
    assert_eq!(stats.close_total, 1);
}

#[test]
fn queued_requests_start_in_arrival_order() {
    let opts = AppServiceOptions {
        max_inflight_per_connection: 0,
        max_queue_per_connection: 4,
        overload_action: OverloadAction::FailFast,
    };
    let mut h = AppServiceHandler::new(opts);
    assert_eq!(h.channel_read(b"a".to_vec()), Admission::Start(b"a".to_vec()));
    assert_eq!(h.channel_read(b"b".to_vec()), Admission::Queued);
    assert_eq!(h.channel_read(b"c".to_vec()), Admission::Queued);
    assert!(h.has_app_backlog(false));

    assert_eq!(h.on_app_complete(), vec![b"b".to_vec()]);
    assert!(h.has_app_backlog(false));
    assert_eq!(h.on_app_complete(), vec![b"c".to_vec()]);
    assert!(!h.has_app_backlog(false));
    assert!(h.has_app_backlog(true));
    assert_eq!(h.on_app_complete(), Vec::<Vec<u8>>::new());
}

#[test]
fn stats_are_reset_when_taken_and_inactive_clears_queue() {
    let mut h = AppServiceHandler::new(AppServiceOptions {
        max_inflight_per_connection: 1,
        max_queue_per_connection: 1,
        overload_action: OverloadAction::FailFast,
    });
    let _ = h.channel_read(b"a".to_vec());
    let _ = h.channel_read(b"b".to_vec());
    let _ = h.channel_read(b"c".to_vec());
    let first = h.take_overload_stats();
    assert_eq!(first.reject_total, 1);
    assert_eq!(first.queue_high_watermark, 1);
    let second = h.take_overload_stats();
    assert_eq!(second.reject_total, 0);
    assert_eq!(second.queue_high_watermark, 1);
    h.channel_inactive();
    assert!(!h.has_app_backlog(false));
    assert_eq!(h.take_overload_stats(), AppOverloadStats::default());
}

#[test]
fn default_options_allow_one_call_and_a_deep_queue() {
    let o = AppServiceOptions::default();
    assert_eq!(o.max_inflight_per_connection, 1);
    assert_eq!(o.max_queue_per_connection, 1024);
    assert_eq!(o.overload_action, OverloadAction::FailFast);
    let n = AppServiceOptions { max_inflight_per_connection: 0, ..o }.normalized();
    assert_eq!(n.max_inflight_per_connection, 1);
}
