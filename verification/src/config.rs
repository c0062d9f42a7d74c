//! Dataplane configuration: the runtime-neutral config and its
//! options-style facade, normalization of numeric foot-guns, validation and
//! the throughput overlay.
use vstd::prelude::*;
use crate::uci::{Budget, Duration};
use crate::policy::{FlushPolicy, WatermarkPolicy};
use crate::framing::profile::{FrameDecoderProfile, max_frame_hint_spec, at_least_one};

verus! {

/// An IP address: four IPv4 octets, or eight IPv6 segments with the flow
/// label and scope id.
#[derive(Debug, Clone, Copy, PartialEq, Eq, Hash)]
pub enum IpAddress {
    V4([u8; 4]),
    V6 { segments: [u16; 8], flowinfo: u32, scope_id: u32 },
}

/// A socket address: IP address and port.
#[derive(Debug, Clone, Copy, PartialEq, Eq, Hash)]
pub struct SocketAddress {
    pub ip: IpAddress,
    pub port: u16,
}

impl SocketAddress {
    pub fn v4(octets: [u8; 4], port: u16) -> (a: Self)
        ensures
            a == (SocketAddress { ip: IpAddress::V4(octets), port }),
    {
        SocketAddress { ip: IpAddress::V4(octets), port }
    }
}

/// Dataplane sizing knobs.
#[derive(Debug, Clone, Copy, PartialEq, Eq)]
pub struct DataPlaneLimits {
    pub max_channels: usize,
    pub max_accept_per_tick: usize,
}

impl Default for DataPlaneLimits {
    fn default() -> (l: Self)
        ensures
            l == (DataPlaneLimits { max_channels: 4096, max_accept_per_tick: 64 }),
    {
        DataPlaneLimits { max_channels: 4096, max_accept_per_tick: 64 }
    }
}

impl DataPlaneLimits {
    /// Both limits raised to at least 1.
    pub fn normalized(self) -> (l: Self)
        ensures
            l == (DataPlaneLimits {
                max_channels: at_least_one(self.max_channels),
                max_accept_per_tick: at_least_one(self.max_accept_per_tick),
            }),
    {
        DataPlaneLimits {
            max_channels: if self.max_channels > 1 { self.max_channels } else { 1 },
            max_accept_per_tick: if self.max_accept_per_tick > 1 { self.max_accept_per_tick } else { 1 },
        }
    }
}

/// Dataplane diagnostics knobs.
#[derive(Debug, Clone, Copy, PartialEq, Eq)]
pub struct DataPlaneDiagnostics {
    /// Whether to emit best-effort evidence logs.
    pub emit_evidence_log: bool,
}

impl Default for DataPlaneDiagnostics {
    fn default() -> (d: Self)
        ensures
            !d.emit_evidence_log,
    {
        DataPlaneDiagnostics { emit_evidence_log: false }
    }
}

/// Validation errors of a dataplane configuration.
#[derive(Debug, Clone, Copy, PartialEq, Eq)]
pub enum DataPlaneConfigError {
    ZeroMaxChannels,
    ZeroMaxAcceptPerTick,
    ZeroDrainTimeout,
    InvalidWatermarkPolicy,
    InvalidFlushPolicy,
}

impl DataPlaneConfigError {
    /// A human-readable description.
    pub fn message(&self) -> (m: &'static str)
        ensures
            m@ == match *self {
                DataPlaneConfigError::ZeroMaxChannels => "max_channels must be greater than zero"@,
                DataPlaneConfigError::ZeroMaxAcceptPerTick => "max_accept_per_tick must be greater than zero"@,
                DataPlaneConfigError::ZeroDrainTimeout => "drain_timeout must be greater than zero"@,
                DataPlaneConfigError::InvalidWatermarkPolicy => "watermark policy must satisfy high_mul > low_mul >= 1"@,
                DataPlaneConfigError::InvalidFlushPolicy =>
                    "flush policy must satisfy max_bytes_mul >= 1, max_bytes_cap >= 1, max_syscalls >= 1, max_iov >= 1"@,
            },
    {
        match self {
            DataPlaneConfigError::ZeroMaxChannels => "max_channels must be greater than zero",
            DataPlaneConfigError::ZeroMaxAcceptPerTick => "max_accept_per_tick must be greater than zero",
            DataPlaneConfigError::ZeroDrainTimeout => "drain_timeout must be greater than zero",
            DataPlaneConfigError::InvalidWatermarkPolicy => "watermark policy must satisfy high_mul > low_mul >= 1",
            DataPlaneConfigError::InvalidFlushPolicy =>
                "flush policy must satisfy max_bytes_mul >= 1, max_bytes_cap >= 1, max_syscalls >= 1, max_iov >= 1",
        }
    }
}

/// Dataplane configuration (runtime-neutral).
#[derive(Debug, Clone, Copy, PartialEq, Eq)]
pub struct DataPlaneConfig {
    pub bind: SocketAddress,
    pub max_channels: usize,
    /// Backpressure watermarks policy (outbound buffer).
    pub watermark: WatermarkPolicy,
    /// Flush fairness policy (per-tick write budget).
    pub flush_policy: FlushPolicy,
    /// Stream/datagram framing profile.
    pub framing: FrameDecoderProfile,
    pub budget: Budget,
    pub max_accept_per_tick: usize,
    /// Graceful draining timeout used when the dataplane enters shutdown.
    pub drain_timeout: Duration,
    /// Hard cap for per-channel pending outbound bytes.
    pub max_pending_write_bytes: usize,
    /// Whether to emit best-effort evidence logs.
    pub emit_evidence_log: bool,
}

/// Product-level, options-style configuration facade.
#[derive(Debug, Clone, Copy, PartialEq, Eq)]
pub struct DataPlaneOptions {
    pub bind: SocketAddress,
    pub limits: DataPlaneLimits,
    pub watermark: WatermarkPolicy,
    pub flush_policy: FlushPolicy,
    pub framing: FrameDecoderProfile,
    pub budget: Budget,
    pub drain_timeout: Duration,
    pub max_pending_write_bytes: usize,
    pub diagnostics: DataPlaneDiagnostics,
}

/// The longer of a timeout and one millisecond.
pub open spec fn at_least_1ms(d: Duration) -> Duration {
    if d.total_nanos() >= Duration::spec_from_millis(1).total_nanos() { d } else { Duration::spec_from_millis(1) }
}

/// The throughput-oriented watermark overlay.
pub open spec fn perf_watermark() -> WatermarkPolicy {
    WatermarkPolicy { min_frame: 4096, high_mul: 16, low_mul: 8 }
}

/// The throughput-oriented flush overlay.
pub open spec fn perf_flush_policy() -> FlushPolicy {
    FlushPolicy { min_frame: 65536, max_bytes_mul: 64, max_bytes_cap: 67108864, max_syscalls: 64, max_iov: 16 }
}

/// The throughput-oriented reactor budget.
pub open spec fn perf_budget() -> Budget {
    Budget { max_events: 512, max_nanos: 4_000_000 }
}

/// Which check `validate` fails first, if any.
pub open spec fn validate_spec(c: DataPlaneConfig) -> Result<(), DataPlaneConfigError> {
    if c.max_channels == 0 {
        Err(DataPlaneConfigError::ZeroMaxChannels)
    } else if c.max_accept_per_tick == 0 {
        Err(DataPlaneConfigError::ZeroMaxAcceptPerTick)
    } else if c.drain_timeout.total_nanos() == 0 {
        Err(DataPlaneConfigError::ZeroDrainTimeout)
    } else if c.watermark.low_mul == 0 || c.watermark.high_mul <= c.watermark.low_mul {
        Err(DataPlaneConfigError::InvalidWatermarkPolicy)
    } else if c.flush_policy.max_bytes_mul == 0 || c.flush_policy.max_bytes_cap == 0 || c.flush_policy.max_syscalls == 0
        || c.flush_policy.max_iov == 0 {
        Err(DataPlaneConfigError::InvalidFlushPolicy)
    } else {
        Ok(())
    }
}


/// The default configuration.
pub open spec fn config_default_spec() -> DataPlaneConfig {
    DataPlaneConfig {
        bind: SocketAddress { ip: IpAddress::V4([0u8, 0u8, 0u8, 0u8]), port: 5060 },
        max_channels: 4096,
        watermark: WatermarkPolicy { min_frame: 1024, high_mul: 8, low_mul: 4 },
        flush_policy: FlushPolicy { min_frame: 65536, max_bytes_mul: 32, max_bytes_cap: 16777216, max_syscalls: 32, max_iov: 8 },
        framing: FrameDecoderProfile::Line { max_frame: 65536 },
        budget: Budget { max_events: 256, max_nanos: 2_000_000 },
        max_accept_per_tick: 64,
        drain_timeout: Duration::spec_from_secs(5),
        max_pending_write_bytes: usize::MAX,
        emit_evidence_log: false,
    }
}

/// A configuration with zero capacities, a zero drain timeout and a zero
/// pending cap clamped to their smallest useful values.
pub open spec fn config_normalized_spec(c: DataPlaneConfig) -> DataPlaneConfig {
    DataPlaneConfig {
        max_channels: at_least_one(c.max_channels),
        max_accept_per_tick: at_least_one(c.max_accept_per_tick),
        drain_timeout: at_least_1ms(c.drain_timeout),
        max_pending_write_bytes: at_least_one(c.max_pending_write_bytes),
        ..c
    }
}

/// The configuration an options value builds into.
pub open spec fn options_to_config_spec(o: DataPlaneOptions) -> DataPlaneConfig {
    DataPlaneConfig {
        bind: o.bind,
        max_channels: at_least_one(o.limits.max_channels),
        watermark: o.watermark,
        flush_policy: o.flush_policy,
        framing: o.framing,
        budget: o.budget,
        max_accept_per_tick: at_least_one(o.limits.max_accept_per_tick),
        drain_timeout: at_least_1ms(o.drain_timeout),
        max_pending_write_bytes: at_least_one(o.max_pending_write_bytes),
        emit_evidence_log: o.diagnostics.emit_evidence_log,
    }
}

/// The options view of a configuration.
pub open spec fn config_to_options_spec(c: DataPlaneConfig) -> DataPlaneOptions {
    DataPlaneOptions {
        bind: c.bind,
        limits: DataPlaneLimits { max_channels: c.max_channels, max_accept_per_tick: c.max_accept_per_tick },
        watermark: c.watermark,
        flush_policy: c.flush_policy,
        framing: c.framing,
        budget: c.budget,
        drain_timeout: c.drain_timeout,
        max_pending_write_bytes: c.max_pending_write_bytes,
        diagnostics: DataPlaneDiagnostics { emit_evidence_log: c.emit_evidence_log },
    }
}

/// Options with zero limits, a zero drain timeout and a zero pending cap
/// clamped.
pub open spec fn options_normalized_spec(o: DataPlaneOptions) -> DataPlaneOptions {
    DataPlaneOptions {
        limits: DataPlaneLimits {
            max_channels: at_least_one(o.limits.max_channels),
            max_accept_per_tick: at_least_one(o.limits.max_accept_per_tick),
        },
        drain_timeout: at_least_1ms(o.drain_timeout),
        max_pending_write_bytes: at_least_one(o.max_pending_write_bytes),
        ..o
    }
}

fn duration_at_least_1ms(d: Duration) -> (r: Duration)
    ensures
        r == at_least_1ms(d),
{
    proof { Duration::lemma_constructors(0, 1); }
    d.max(Duration::from_millis(1))
}

impl Default for DataPlaneConfig {
    fn default() -> (c: Self)
        ensures
            c == config_default_spec(),
    {
        DataPlaneConfig {
            bind: SocketAddress::v4([0u8, 0u8, 0u8, 0u8], 5060),
            max_channels: 4096,
            watermark: WatermarkPolicy::default(),
            flush_policy: FlushPolicy::default(),
            framing: FrameDecoderProfile::line(64 * 1024),
            budget: Budget { max_events: 256, max_nanos: 2_000_000 },
            max_accept_per_tick: 64,
            drain_timeout: Duration::from_secs(5),
            max_pending_write_bytes: usize::MAX,
            emit_evidence_log: false,
        }
    }
}

impl DataPlaneConfig {
    /// The default configuration bound to `bind`.
    pub fn tcp(bind: SocketAddress) -> (c: Self)
        ensures
            c == (DataPlaneConfig { bind, ..config_default_spec() }),
    {
        let mut c = DataPlaneConfig::default();
        c.bind = bind;
        c
    }

    /// A management-plane HTTP/1 configuration.
    pub fn management_http(bind: SocketAddress, max_request_bytes: usize) -> (c: Self)
        ensures
            c == (DataPlaneConfig {
                bind,
                framing: FrameDecoderProfile::http1_spec(max_request_bytes, max_request_bytes, 64),
                ..config_default_spec()
            }),
    {
        Self::tcp(bind).with_framing(FrameDecoderProfile::http1(max_request_bytes))
    }

    /// A management-plane HTTP/1 configuration with explicit head limits.
    pub fn management_http_with_limits(bind: SocketAddress, max_request_bytes: usize, max_head_bytes: usize,
        max_headers: usize) -> (c: Self)
        ensures
            c == (DataPlaneConfig {
                bind,
                framing: FrameDecoderProfile::http1_spec(max_request_bytes, max_head_bytes, max_headers),
                ..config_default_spec()
            }),
    {
        Self::tcp(bind).with_framing(FrameDecoderProfile::http1_with_limits(max_request_bytes, max_head_bytes, max_headers))
    }

    /// A throughput-oriented TCP configuration.
    pub fn perf_tcp(bind: SocketAddress) -> (c: Self)
        ensures
            c == (DataPlaneConfig {
                bind,
                watermark: perf_watermark(),
                flush_policy: perf_flush_policy(),
                budget: perf_budget(),
                emit_evidence_log: false,
                ..config_default_spec()
            }),
    {
        Self::tcp(bind).with_perf_defaults()
    }

    /// Clamp the numeric foot-guns (zero capacities, zero drain timeout).
    pub fn normalized(self) -> (c: Self)
        ensures
            c == config_normalized_spec(self),
    {
        let mut c = self;
        c.max_channels = if self.max_channels > 1 { self.max_channels } else { 1 };
        c.max_accept_per_tick = if self.max_accept_per_tick > 1 { self.max_accept_per_tick } else { 1 };
        c.drain_timeout = duration_at_least_1ms(self.drain_timeout);
        c.max_pending_write_bytes = if self.max_pending_write_bytes > 1 { self.max_pending_write_bytes } else { 1 };
        c
    }

    /// Check the structural invariants, in order: capacities, drain timeout,
    /// watermark policy (`high_mul > low_mul >= 1`), flush policy (`max_bytes_mul`,
    /// `max_bytes_cap`, `max_syscalls`, `max_iov` all at least 1).
    pub fn validate(&self) -> (r: Result<(), DataPlaneConfigError>)
        ensures
            r == validate_spec(*self),
    {
        if self.max_channels == 0 {
            return Err(DataPlaneConfigError::ZeroMaxChannels);
        }
        if self.max_accept_per_tick == 0 {
            return Err(DataPlaneConfigError::ZeroMaxAcceptPerTick);
        }
        if self.drain_timeout.is_zero() {
            return Err(DataPlaneConfigError::ZeroDrainTimeout);
        }
        if self.watermark.low_mul == 0 || self.watermark.high_mul <= self.watermark.low_mul {
            return Err(DataPlaneConfigError::InvalidWatermarkPolicy);
        }
        if self.flush_policy.max_bytes_mul == 0 || self.flush_policy.max_bytes_cap == 0 || self.flush_policy.max_syscalls == 0
            || self.flush_policy.max_iov == 0 {
            return Err(DataPlaneConfigError::InvalidFlushPolicy);
        }
        Ok(())
    }

    /// Maximum frame/datagram size hint of the framing profile (at least 1).
    pub fn max_frame_hint(&self) -> (n: usize)
        ensures
            n == at_least_one(max_frame_hint_spec(self.framing)),
    {
        let h = self.framing.max_frame_hint();
        if h > 1 { h } else { 1 }
    }

    /// The throughput overlay: larger watermarks, flush and reactor budgets,
    /// no evidence log; everything else is kept.
    pub fn with_perf_defaults(self) -> (c: Self)
        ensures
            c == (DataPlaneConfig {
                watermark: perf_watermark(),
                flush_policy: perf_flush_policy(),
                budget: perf_budget(),
                emit_evidence_log: false,
                ..self
            }),
    {
        let mut c = self;
        c.watermark = WatermarkPolicy { min_frame: 4 * 1024, high_mul: 16, low_mul: 8 };
        c.flush_policy = FlushPolicy {
            min_frame: 64 * 1024,
            max_bytes_mul: 64,
            max_bytes_cap: 64 * 1024 * 1024,
            max_syscalls: 64,
            max_iov: 16,
        };
        c.budget = Budget { max_events: 512, max_nanos: 4_000_000 };
        c.emit_evidence_log = false;
        c
    }

    /// Set the bind address.
    pub fn with_bind(self, bind: SocketAddress) -> (r: Self)
        ensures
            r == (DataPlaneConfig { bind, ..self }),
    {
        let mut s = self;
        s.bind = bind;
        s
    }

    /// Set the framing profile.
    pub fn with_framing(self, framing: FrameDecoderProfile) -> (r: Self)
        ensures
            r == (DataPlaneConfig { framing, ..self }),
    {
        let mut s = self;
        s.framing = framing;
        s
    }

    /// Set the watermark policy.
    pub fn with_watermark(self, watermark: WatermarkPolicy) -> (r: Self)
        ensures
            r == (DataPlaneConfig { watermark, ..self }),
    {
        let mut s = self;
        s.watermark = watermark;
        s
    }

    /// Set the flush policy.
    pub fn with_flush_policy(self, flush_policy: FlushPolicy) -> (r: Self)
        ensures
            r == (DataPlaneConfig { flush_policy, ..self }),
    {
        let mut s = self;
        s.flush_policy = flush_policy;
        s
    }

    /// Set the channel capacity.
    pub fn with_max_channels(self, max_channels: usize) -> (r: Self)
        ensures
            r == (DataPlaneConfig { max_channels, ..self }),
    {
        let mut s = self;
        s.max_channels = max_channels;
        s
    }

    /// Set the poll budget.
    pub fn with_budget(self, budget: Budget) -> (r: Self)
        ensures
            r == (DataPlaneConfig { budget, ..self }),
    {
        let mut s = self;
        s.budget = budget;
        s
    }

    /// Set the accept cap per tick.
    pub fn with_max_accept_per_tick(self, max_accept_per_tick: usize) -> (r: Self)
        ensures
            r == (DataPlaneConfig { max_accept_per_tick, ..self }),
    {
        let mut s = self;
        s.max_accept_per_tick = max_accept_per_tick;
        s
    }

    /// Set the graceful drain timeout.
    pub fn with_drain_timeout(self, drain_timeout: Duration) -> (r: Self)
        ensures
            r == (DataPlaneConfig { drain_timeout, ..self }),
    {
        let mut s = self;
        s.drain_timeout = drain_timeout;
        s
    }

    /// Set the pending outbound hard cap.
    pub fn with_max_pending_write_bytes(self, max_pending_write_bytes: usize) -> (r: Self)
        ensures
            r == (DataPlaneConfig { max_pending_write_bytes, ..self }),
    {
        let mut s = self;
        s.max_pending_write_bytes = max_pending_write_bytes;
        s
    }

    /// Set evidence logging.
    pub fn with_evidence_log(self, emit_evidence_log: bool) -> (r: Self)
        ensures
            r == (DataPlaneConfig { emit_evidence_log, ..self }),
    {
        let mut s = self;
        s.emit_evidence_log = emit_evidence_log;
        s
    }

}

impl From<DataPlaneOptions> for DataPlaneConfig {
    fn from(value: DataPlaneOptions) -> (c: Self) {
        let limits = value.limits.normalized();
        DataPlaneConfig {
            bind: value.bind,
            max_channels: limits.max_channels,
            watermark: value.watermark,
            flush_policy: value.flush_policy,
            framing: value.framing,
            budget: value.budget,
            max_accept_per_tick: limits.max_accept_per_tick,
            drain_timeout: duration_at_least_1ms(value.drain_timeout),
            max_pending_write_bytes: if value.max_pending_write_bytes > 1 { value.max_pending_write_bytes } else { 1 },
            emit_evidence_log: value.diagnostics.emit_evidence_log,
        }
    }
}

impl vstd::std_specs::convert::FromSpecImpl<DataPlaneOptions> for DataPlaneConfig {
    open spec fn obeys_from_spec() -> bool {
        true
    }

    open spec fn from_spec(v: DataPlaneOptions) -> Self {
        options_to_config_spec(v)
    }
}

impl From<DataPlaneConfig> for DataPlaneOptions {
    fn from(value: DataPlaneConfig) -> (o: Self) {
        DataPlaneOptions {
            bind: value.bind,
            limits: DataPlaneLimits { max_channels: value.max_channels, max_accept_per_tick: value.max_accept_per_tick },
            watermark: value.watermark,
            flush_policy: value.flush_policy,
            framing: value.framing,
            budget: value.budget,
            drain_timeout: value.drain_timeout,
            max_pending_write_bytes: value.max_pending_write_bytes,
            diagnostics: DataPlaneDiagnostics { emit_evidence_log: value.emit_evidence_log },
        }
    }
}

impl vstd::std_specs::convert::FromSpecImpl<DataPlaneConfig> for DataPlaneOptions {
    open spec fn obeys_from_spec() -> bool {
        true
    }

    open spec fn from_spec(v: DataPlaneConfig) -> Self {
        config_to_options_spec(v)
    }
}

impl Default for DataPlaneOptions {
    fn default() -> (o: Self)
        ensures
            o == config_to_options_spec(config_default_spec()),
    {
        DataPlaneOptions::from(DataPlaneConfig::default())
    }
}

impl DataPlaneOptions {
    /// The default options bound to `bind`.
    pub fn tcp(bind: SocketAddress) -> (o: Self)
        ensures
            o == (DataPlaneOptions { bind, ..config_to_options_spec(config_default_spec()) }),
    {
        let mut o = DataPlaneOptions::default();
        o.bind = bind;
        o
    }

    /// Management-plane HTTP/1 options.
    pub fn management_http(bind: SocketAddress, max_request_bytes: usize) -> (o: Self)
        ensures
            o == (DataPlaneOptions {
                bind,
                framing: FrameDecoderProfile::http1_spec(max_request_bytes, max_request_bytes, 64),
                ..config_to_options_spec(config_default_spec())
            }),
    {
        Self::tcp(bind).with_framing(FrameDecoderProfile::http1(max_request_bytes))
    }

    /// Management-plane HTTP/1 options with explicit head limits.
    pub fn management_http_with_limits(bind: SocketAddress, max_request_bytes: usize, max_head_bytes: usize,
        max_headers: usize) -> (o: Self)
        ensures
            o == (DataPlaneOptions {
                bind,
                framing: FrameDecoderProfile::http1_spec(max_request_bytes, max_head_bytes, max_headers),
                ..config_to_options_spec(config_default_spec())
            }),
    {
        Self::tcp(bind).with_framing(FrameDecoderProfile::http1_with_limits(max_request_bytes, max_head_bytes, max_headers))
    }

    /// Throughput-oriented TCP options.
    pub fn perf_tcp(bind: SocketAddress) -> (o: Self)
        ensures
            o == (DataPlaneOptions {
                bind,
                watermark: perf_watermark(),
                flush_policy: perf_flush_policy(),
                budget: perf_budget(),
                diagnostics: DataPlaneDiagnostics { emit_evidence_log: false },
                ..config_to_options_spec(config_default_spec())
            }),
    {
        Self::tcp(bind).with_perf_defaults()
    }

    /// Clamp the numeric foot-guns.
    pub fn normalized(self) -> (o: Self)
        ensures
            o == options_normalized_spec(self),
    {
        let mut o = self;
        o.limits = self.limits.normalized();
        o.drain_timeout = duration_at_least_1ms(self.drain_timeout);
        o.max_pending_write_bytes = if self.max_pending_write_bytes > 1 { self.max_pending_write_bytes } else { 1 };
        o
    }

    /// Validate the configuration these options build into.
    pub fn validate(&self) -> (r: Result<(), DataPlaneConfigError>)
        ensures
            r == validate_spec(options_to_config_spec(options_normalized_spec(*self))),
    {
        DataPlaneConfig::from(self.normalized()).validate()
    }

    /// The normalized configuration.
    pub fn build(self) -> (c: DataPlaneConfig)
        ensures
            c == options_to_config_spec(options_normalized_spec(self)),
    {
        DataPlaneConfig::from(self.normalized())
    }

    /// The throughput overlay.
    pub fn with_perf_defaults(self) -> (o: Self)
        ensures
            o == (DataPlaneOptions {
                watermark: perf_watermark(),
                flush_policy: perf_flush_policy(),
                budget: perf_budget(),
                diagnostics: DataPlaneDiagnostics { emit_evidence_log: false },
                ..self
            }),
    {
        let mut o = self;
        o.watermark = WatermarkPolicy { min_frame: 4 * 1024, high_mul: 16, low_mul: 8 };
        o.flush_policy = FlushPolicy {
            min_frame: 64 * 1024,
            max_bytes_mul: 64,
            max_bytes_cap: 64 * 1024 * 1024,
            max_syscalls: 64,
            max_iov: 16,
        };
        o.budget = Budget { max_events: 512, max_nanos: 4_000_000 };
        o.diagnostics.emit_evidence_log = false;
        o
    }

    /// Set the bind address.
    pub fn with_bind(self, bind: SocketAddress) -> (r: Self)
        ensures
            r == (DataPlaneOptions { bind, ..self }),
    {
        let mut s = self;
        s.bind = bind;
        s
    }

    /// Set the limits.
    pub fn with_limits(self, limits: DataPlaneLimits) -> (r: Self)
        ensures
            r == (DataPlaneOptions { limits, ..self }),
    {
        let mut s = self;
        s.limits = limits;
        s
    }

    /// Set the framing profile.
    pub fn with_framing(self, framing: FrameDecoderProfile) -> (r: Self)
        ensures
            r == (DataPlaneOptions { framing, ..self }),
    {
        let mut s = self;
        s.framing = framing;
        s
    }

    /// Set the watermark policy.
    pub fn with_watermark(self, watermark: WatermarkPolicy) -> (r: Self)
        ensures
            r == (DataPlaneOptions { watermark, ..self }),
    {
        let mut s = self;
        s.watermark = watermark;
        s
    }

    /// Set the flush policy.
    pub fn with_flush_policy(self, flush_policy: FlushPolicy) -> (r: Self)
        ensures
            r == (DataPlaneOptions { flush_policy, ..self }),
    {
        let mut s = self;
        s.flush_policy = flush_policy;
        s
    }

    /// Set the poll budget.
    pub fn with_budget(self, budget: Budget) -> (r: Self)
        ensures
            r == (DataPlaneOptions { budget, ..self }),
    {
        let mut s = self;
        s.budget = budget;
        s
    }

    /// Set the graceful drain timeout.
    pub fn with_drain_timeout(self, drain_timeout: Duration) -> (r: Self)
        ensures
            r == (DataPlaneOptions { drain_timeout, ..self }),
    {
        let mut s = self;
        s.drain_timeout = drain_timeout;
        s
    }

    /// Set the pending outbound hard cap.
    pub fn with_max_pending_write_bytes(self, max_pending_write_bytes: usize) -> (r: Self)
        ensures
            r == (DataPlaneOptions { max_pending_write_bytes, ..self }),
    {
        let mut s = self;
        s.max_pending_write_bytes = max_pending_write_bytes;
        s
    }

    /// Set the diagnostics knobs.
    pub fn with_diagnostics(self, diagnostics: DataPlaneDiagnostics) -> (r: Self)
        ensures
            r == (DataPlaneOptions { diagnostics, ..self }),
    {
        let mut s = self;
        s.diagnostics = diagnostics;
        s
    }

    /// Set the channel capacity.
    pub fn with_max_channels(self, max_channels: usize) -> (r: Self)
        ensures
            r == (DataPlaneOptions { limits: DataPlaneLimits { max_channels, ..self.limits }, ..self }),
    {
        let mut s = self;
        s.limits.max_channels = max_channels;
        s
    }

    /// Set the accept cap per tick.
    pub fn with_max_accept_per_tick(self, max_accept_per_tick: usize) -> (r: Self)
        ensures
            r == (DataPlaneOptions { limits: DataPlaneLimits { max_accept_per_tick, ..self.limits }, ..self }),
    {
        let mut s = self;
        s.limits.max_accept_per_tick = max_accept_per_tick;
        s
    }

    /// Set evidence logging.
    pub fn with_evidence_log(self, emit_evidence_log: bool) -> (r: Self)
        ensures
            r == (DataPlaneOptions { diagnostics: DataPlaneDiagnostics { emit_evidence_log }, ..self }),
    {
        let mut s = self;
        s.diagnostics.emit_evidence_log = emit_evidence_log;
        s
    }

}

/// Validation accepts exactly the configurations with a channel and an
/// accept slot, a non-zero drain timeout, watermark multipliers with
/// `0 < low < high`, and a flush policy whose multiplier, cap, syscall and
/// iov budgets are all at least one; each error names a check that failed,
/// and the checks are made in that order.
pub proof fn lemma_validate_rules(c: DataPlaneConfig)
    ensures
        ({
            let r = validate_spec(c);
            let wm_ok = c.watermark.low_mul >= 1 && c.watermark.high_mul > c.watermark.low_mul;
            let fp_ok = c.flush_policy.max_bytes_mul >= 1 && c.flush_policy.max_bytes_cap >= 1
                && c.flush_policy.max_syscalls >= 1 && c.flush_policy.max_iov >= 1;
            &&& (r == Ok::<(), DataPlaneConfigError>(())) <==> (c.max_channels >= 1 && c.max_accept_per_tick >= 1 && c.drain_timeout.total_nanos() != 0
                && wm_ok && fp_ok)
            &&& r == Err::<(), DataPlaneConfigError>(DataPlaneConfigError::ZeroMaxChannels) <==> c.max_channels == 0
            &&& r == Err::<(), DataPlaneConfigError>(DataPlaneConfigError::ZeroMaxAcceptPerTick)
                <==> (c.max_channels >= 1 && c.max_accept_per_tick == 0)
            &&& r == Err::<(), DataPlaneConfigError>(DataPlaneConfigError::ZeroDrainTimeout)
                <==> (c.max_channels >= 1 && c.max_accept_per_tick >= 1 && c.drain_timeout.total_nanos() == 0)
            &&& r == Err::<(), DataPlaneConfigError>(DataPlaneConfigError::InvalidWatermarkPolicy)
                <==> (c.max_channels >= 1 && c.max_accept_per_tick >= 1 && c.drain_timeout.total_nanos() != 0 && !wm_ok)
            &&& r == Err::<(), DataPlaneConfigError>(DataPlaneConfigError::InvalidFlushPolicy)
                <==> (c.max_channels >= 1 && c.max_accept_per_tick >= 1 && c.drain_timeout.total_nanos() != 0 && wm_ok
                && !fp_ok)
        }),
{
}

/// Normalizing raises a zero channel count, accept cap and pending cap to
/// one and a drain timeout under a millisecond to one millisecond, and
/// keeps every other setting and every value already in range.
pub proof fn lemma_normalized_clamps(c: DataPlaneConfig)
    ensures
        ({
            let n = config_normalized_spec(c);
            &&& n.max_channels == (if c.max_channels >= 1 { c.max_channels } else { 1 })
            &&& n.max_accept_per_tick == (if c.max_accept_per_tick >= 1 { c.max_accept_per_tick } else { 1 })
            &&& n.max_pending_write_bytes == (if c.max_pending_write_bytes >= 1 { c.max_pending_write_bytes } else { 1 })
            &&& c.drain_timeout.total_nanos() >= 1_000_000 ==> n.drain_timeout == c.drain_timeout
            &&& c.drain_timeout.total_nanos() < 1_000_000 ==> n.drain_timeout.total_nanos() == 1_000_000
            &&& n.bind == c.bind && n.watermark == c.watermark && n.flush_policy == c.flush_policy
            &&& n.framing == c.framing && n.budget == c.budget && n.emit_evidence_log == c.emit_evidence_log
        }),
{
    Duration::lemma_constructors(0, 1);
}

/// Normalizing twice is normalizing once.
pub proof fn lemma_normalized_idempotent(c: DataPlaneConfig)
    ensures
        config_normalized_spec(config_normalized_spec(c)) == config_normalized_spec(c),
{
    Duration::lemma_constructors(0, 1);
}

/// A normalized configuration fails validation only on its policies.
pub proof fn lemma_normalized_validates(c: DataPlaneConfig)
    ensures
        validate_spec(config_normalized_spec(c)) is Ok <==> (
            c.watermark.low_mul >= 1 && c.watermark.high_mul > c.watermark.low_mul
            && c.flush_policy.max_bytes_mul >= 1 && c.flush_policy.max_bytes_cap >= 1
            && c.flush_policy.max_syscalls >= 1 && c.flush_policy.max_iov >= 1),
{
    Duration::lemma_constructors(0, 1);
}

/// Converting a configuration to options and building them back gives the
/// normalized configuration.
pub proof fn lemma_config_options_roundtrip(c: DataPlaneConfig)
    ensures
        options_to_config_spec(options_normalized_spec(config_to_options_spec(c))) == config_normalized_spec(c),
{
    Duration::lemma_constructors(0, 1);
}

/// The options-style throughput helper builds the same configuration as the
/// configuration-level one, for every bind address.
pub proof fn lemma_perf_tcp_agrees(bind: SocketAddress)
    ensures
        options_to_config_spec(options_normalized_spec(DataPlaneOptions {
            bind,
            watermark: perf_watermark(),
            flush_policy: perf_flush_policy(),
            budget: perf_budget(),
            diagnostics: DataPlaneDiagnostics { emit_evidence_log: false },
            ..config_to_options_spec(config_default_spec())
        })) == (DataPlaneConfig {
            bind,
            watermark: perf_watermark(),
            flush_policy: perf_flush_policy(),
            budget: perf_budget(),
            emit_evidence_log: false,
            ..config_default_spec()
        }),
{
    Duration::lemma_constructors(5, 1);
}

} // verus!
