use spark_transport::config::{DataPlaneConfig, DataPlaneConfigError, DataPlaneOptions, SocketAddress};
use spark_transport::framing::profile::FrameDecoderProfile;
use spark_transport::policy::{FlushPolicy, WatermarkPolicy};
use spark_transport::uci::Duration;

#[test]
fn dataplane_options_build_normalizes_numeric_footguns() {
    let cfg = DataPlaneOptions::default()
        .with_max_channels(0)
        .with_max_accept_per_tick(0)
        .with_drain_timeout(Duration::zero())
        .with_max_pending_write_bytes(0)
        .build();

    assert_eq!(cfg.max_channels, 1);
    assert_eq!(cfg.max_accept_per_tick, 1);
    assert_eq!(cfg.drain_timeout, Duration::from_millis(1));
    assert_eq!(cfg.max_pending_write_bytes, 1);
    assert!(cfg.validate().is_ok());
}

#[test]
fn dataplane_config_validate_rejects_invalid_watermark_policy() {
    let cfg = DataPlaneConfig::default().with_watermark(WatermarkPolicy {
        min_frame: 1024,
        high_mul: 4,
        low_mul: 4,
    });

    assert_eq!(cfg.validate(), Err(DataPlaneConfigError::InvalidWatermarkPolicy));
}

#[test]
fn dataplane_config_validate_rejects_invalid_flush_policy() {
    let cfg = DataPlaneConfig::default().with_flush_policy(FlushPolicy {
        min_frame: 64 * 1024,
        max_bytes_mul: 0,
        max_bytes_cap: 16 * 1024 * 1024,
        max_syscalls: 32,
        max_iov: 8,
    });

    assert_eq!(cfg.validate(), Err(DataPlaneConfigError::InvalidFlushPolicy));
}

#[test]
fn dataplane_perf_overlay_preserves_shape_and_tunes_budgets() {
    let bind = SocketAddress::v4([127, 0, 0, 1], 25060);
    let cfg = DataPlaneOptions::management_http(bind, 8192)
        .with_max_channels(333)
        .with_max_accept_per_tick(11)
        .with_drain_timeout(Duration::from_secs(7))
        .with_evidence_log(true)
        .with_perf_defaults()
        .build();

    assert_eq!(cfg.bind, bind);
    assert_eq!(cfg.max_channels, 333);
    assert_eq!(cfg.max_accept_per_tick, 11);
    assert_eq!(cfg.drain_timeout, Duration::from_secs(7));
    assert_eq!(cfg.framing, FrameDecoderProfile::http1(8192));
    assert!(!cfg.emit_evidence_log);
    assert_eq!(cfg.watermark.low_mul, 8);
    assert_eq!(cfg.watermark.high_mul, 16);
    assert_eq!(cfg.flush_policy.max_syscalls, 64);
    assert_eq!(cfg.flush_policy.max_iov, 16);
    assert_eq!(cfg.budget.max_events, 512);
    assert_eq!(cfg.budget.max_nanos, 4_000_000);
    assert!(cfg.validate().is_ok());
}

#[test]
fn dataplane_perf_tcp_helper_matches_overlay() {
    let bind = SocketAddress::v4([127, 0, 0, 1], 26060);
    assert_eq!(DataPlaneConfig::perf_tcp(bind), DataPlaneConfig::tcp(bind).with_perf_defaults());
    assert_eq!(DataPlaneOptions::perf_tcp(bind).build(), DataPlaneConfig::perf_tcp(bind));
}

#[test]
fn validate_reports_each_zero_limit() {
    let base = DataPlaneConfig::default();
    assert_eq!(base.validate(), Ok(()));
    assert_eq!(base.with_max_channels(0).validate(), Err(DataPlaneConfigError::ZeroMaxChannels));
    assert_eq!(
        base.with_max_accept_per_tick(0).validate(),
        Err(DataPlaneConfigError::ZeroMaxAcceptPerTick)
    );
    assert_eq!(
        base.with_drain_timeout(Duration::zero()).validate(),
        Err(DataPlaneConfigError::ZeroDrainTimeout)
    );
}

#[test]
fn normalization_fixes_limits_but_not_policies() {
    let bad = DataPlaneConfig::default()
        .with_max_channels(0)
        .with_max_accept_per_tick(0)
        .with_drain_timeout(Duration::zero())
        .with_max_pending_write_bytes(0);
    let n = bad.normalized();
    assert_eq!(n.validate(), Ok(()));
    assert_eq!(n.normalized(), n);

    let broken = bad.with_watermark(WatermarkPolicy { min_frame: 0, high_mul: 0, low_mul: 0 });
    assert_eq!(broken.normalized().validate(), Err(DataPlaneConfigError::InvalidWatermarkPolicy));
}

#[test]
fn options_and_config_convert_both_ways() {
    let bind = SocketAddress::v4([10, 0, 0, 2], 80);
    let cfg = DataPlaneConfig::management_http(bind, 4096).with_max_channels(9);
    let opts = DataPlaneOptions::from(cfg);
    assert_eq!(opts.limits.max_channels, 9);
    assert_eq!(DataPlaneConfig::from(opts), cfg);
}

#[test]
fn error_messages_name_the_broken_rule() {
    assert_eq!(
        DataPlaneConfigError::ZeroMaxChannels.message(),
        "max_channels must be greater than zero"
    );
    assert_eq!(
        DataPlaneConfigError::InvalidWatermarkPolicy.message(),
        "watermark policy must satisfy high_mul > low_mul >= 1"
    );
}

#[test]
fn max_frame_hint_follows_framing() {
    let bind = SocketAddress::v4([127, 0, 0, 1], 1);
    let cfg = DataPlaneConfig::tcp(bind).with_framing(FrameDecoderProfile::line(300));
    assert_eq!(cfg.max_frame_hint(), 300);
}

#[test]
fn validate_rejects_flush_policy_without_iov_slots() {
    let cfg = DataPlaneConfig::default().with_flush_policy(FlushPolicy {
        min_frame: 64 * 1024,
        max_bytes_mul: 32,
        max_bytes_cap: 16 * 1024 * 1024,
        max_syscalls: 32,
        max_iov: 0,
    });
    assert_eq!(cfg.validate(), Err(DataPlaneConfigError::InvalidFlushPolicy));
}
