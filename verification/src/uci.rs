//! Shared kernel-level vocabulary: tokens, budgets, errors and internal codes.
use vstd::prelude::*;

verus! {

/// Task token used by executors, expressed as (idx, gen).
#[derive(Debug, Clone, Copy, PartialEq, Eq, Hash)]
pub struct TaskToken {
    pub idx: u32,
    pub gen: u32,
}

/// Receive buffer token, a stable cursor for zero-copy receive.
#[derive(Debug, Clone, Copy, PartialEq, Eq, Hash)]
pub struct RxToken(pub u64);

/// Monotonic timestamp abstraction.
#[derive(Debug, Clone, Copy, PartialEq, Eq, PartialOrd, Ord, Hash)]
pub struct Instant(pub u64);

/// A span of time: whole seconds and the nanoseconds below one second.
#[derive(Debug, Clone, Copy, PartialEq, Eq, Hash, Structural)]
pub struct Duration {
    secs: u64,
    nanos: u32,
}

impl Duration {
    #[verifier::type_invariant]
    closed spec fn inv(self) -> bool {
        self.nanos < 1_000_000_000
    }

    /// The span in nanoseconds.
    pub closed spec fn total_nanos(self) -> int {
        self.secs as int * 1_000_000_000 + self.nanos as int
    }

    pub closed spec fn spec_zero() -> Duration {
        Duration { secs: 0, nanos: 0 }
    }

    pub closed spec fn spec_from_secs(secs: u64) -> Duration {
        Duration { secs, nanos: 0 }
    }

    pub closed spec fn spec_from_millis(millis: u64) -> Duration {
        Duration { secs: millis / 1000, nanos: ((millis % 1000) * 1_000_000) as u32 }
    }

    /// The spans the constructors build are as long as they say.
    pub proof fn lemma_constructors(secs: u64, millis: u64)
        ensures
            Duration::spec_zero().total_nanos() == 0,
            Duration::spec_from_secs(secs).total_nanos() == secs * 1_000_000_000,
            Duration::spec_from_millis(millis).total_nanos() == millis * 1_000_000,
    {
        let rem = millis % 1000;
        assert(rem * 1_000_000 < 1_000_000_000) by (nonlinear_arith) requires rem < 1000;
        assert((millis / 1000) * 1_000_000_000 + rem * 1_000_000 == millis * 1_000_000) by (nonlinear_arith)
            requires rem == millis % 1000;
    }

    pub fn zero() -> (d: Self)
        ensures
            d == Duration::spec_zero(),
            d.total_nanos() == 0,
    {
        Duration { secs: 0, nanos: 0 }
    }

    pub fn from_secs(secs: u64) -> (d: Self)
        ensures
            d == Duration::spec_from_secs(secs),
            d.total_nanos() == secs * 1_000_000_000,
    {
        Duration { secs, nanos: 0 }
    }

    pub fn from_millis(millis: u64) -> (d: Self)
        ensures
            d == Duration::spec_from_millis(millis),
            d.total_nanos() == millis * 1_000_000,
    {
        let secs = millis / 1000;
        let rem = millis % 1000;
        assert(rem * 1_000_000 < 1_000_000_000) by (nonlinear_arith) requires rem < 1000;
        let d = Duration { secs, nanos: (rem * 1_000_000) as u32 };
        assert(secs * 1_000_000_000 + rem * 1_000_000 == millis * 1_000_000) by (nonlinear_arith)
            requires secs == millis / 1000, rem == millis % 1000;
        d
    }

    pub fn is_zero(self) -> (r: bool)
        ensures
            r == (self.total_nanos() == 0),
    {
        self.secs == 0 && self.nanos == 0
    }

    /// The longer of two spans.
    pub fn max(self, other: Self) -> (d: Self)
        ensures
            d == (if self.total_nanos() >= other.total_nanos() { self } else { other }),
    {
        proof {
            use_type_invariant(self);
            use_type_invariant(other);
            assert(self.secs < other.secs ==> self.total_nanos() < other.total_nanos()) by (nonlinear_arith)
                requires self.nanos < 1_000_000_000, other.nanos < 1_000_000_000;
            assert(self.secs > other.secs ==> self.total_nanos() > other.total_nanos()) by (nonlinear_arith)
                requires self.nanos < 1_000_000_000, other.nanos < 1_000_000_000;
        }
        if self.secs > other.secs || (self.secs == other.secs && self.nanos >= other.nanos) {
            self
        } else {
            other
        }
    }

    /// The span in nanoseconds, saturated at `u64::MAX`.
    pub fn as_nanos_saturating(self) -> (n: u64)
        ensures
            n as int == (if self.total_nanos() > u64::MAX { u64::MAX as int } else { self.total_nanos() }),
    {
        proof { use_type_invariant(self); }
        match self.secs.checked_mul(1_000_000_000) {
            Some(s) => s.saturating_add(self.nanos as u64),
            None => {
                assert(self.secs as int * 1_000_000_000 > u64::MAX);
                u64::MAX
            },
        }
    }

    pub fn as_secs(self) -> (s: u64)
        ensures
            s as int == self.total_nanos() / 1_000_000_000,
    {
        proof { use_type_invariant(self); }
        self.secs
    }

    pub fn subsec_nanos(self) -> (n: u32)
        ensures
            n as int == self.total_nanos() % 1_000_000_000,
    {
        proof { use_type_invariant(self); }
        self.nanos
    }
}

/// Poll/drive budget.
#[derive(Debug, Clone, Copy, PartialEq, Eq)]
pub struct Budget {
    pub max_events: u32,
    pub max_nanos: u64,
}

/// Kernel-level error (no business semantics).
#[derive(Debug, Clone, Copy, PartialEq, Eq)]
pub enum KernelError {
    WouldBlock,
    Interrupted,
    /// Peer performed an orderly shutdown (stream read returned 0).
    Eof,
    /// Connection reset by peer.
    Reset,
    /// Operation timed out.
    Timeout,
    Closed,
    Invalid,
    NoMem,
    Unsupported,
    Internal(u32),
}

/// Evidence event shared by ops tooling and contract tests.
#[derive(Debug, Clone, Copy, PartialEq, Eq)]
pub struct EvidenceEvent {
    /// Event name, e.g. `BackpressureEnter`.
    pub name: &'static str,
    pub reason: &'static str,
    pub value: u64,
    pub unit: &'static str,
    pub unit_mapping: &'static str,
    pub scope: &'static str,
    pub scope_id: u64,
    pub channel_id: u32,
    /// Draining/backpressure extension field (0 when unused).
    pub pending_write_bytes: u64,
    pub inflight: u32,
}

/// The value of a composed internal code: subsystem in the high 8 bits,
/// the low 24 bits of `detail` below it.
pub open spec fn spec_internal_code(subsystem: u8, detail: u32) -> int {
    subsystem as int * 0x100_0000 + (detail as int % 0x100_0000)
}

/// Construct a stable `KernelError::Internal` code.
pub fn internal_code(subsystem: u8, detail: u32) -> (r: u32)
    ensures
        r as int == spec_internal_code(subsystem, detail),
{
    let r = ((subsystem as u32) << 24u32) | (detail & 0x00FF_FFFFu32);
    assert(((subsystem as u32) << 24u32) | (detail & 0x00FF_FFFFu32)
        == (subsystem as u32) * 0x100_0000u32 + detail % 0x100_0000u32) by (bit_vector);
    r
}

/// Extract the subsystem id from an internal error code.
pub fn internal_subsystem(code: u32) -> (r: u8)
    ensures
        r as int == code as int / 0x100_0000,
{
    assert((code >> 24u32) == code / 0x100_0000u32) by (bit_vector);
    (code >> 24u32) as u8
}

/// Extract the subsystem-specific detail from an internal error code.
pub fn internal_detail(code: u32) -> (r: u32)
    ensures
        r as int == code as int % 0x100_0000,
{
    assert((code & 0x00FF_FFFFu32) == code % 0x100_0000u32) by (bit_vector);
    code & 0x00FF_FFFFu32
}

/// Splitting a composed code gives back its subsystem and the low 24 bits
/// of its detail.
pub proof fn lemma_internal_code_roundtrip(subsystem: u8, detail: u32)
    ensures
        spec_internal_code(subsystem, detail) / 0x100_0000 == subsystem,
        spec_internal_code(subsystem, detail) % 0x100_0000 == detail % 0x100_0000,
{
    let lo = detail as int % 0x100_0000;
    assert(0 <= lo < 0x100_0000);
    vstd::arithmetic::div_mod::lemma_fundamental_div_mod_converse(
        spec_internal_code(subsystem, detail), 0x100_0000, subsystem as int, lo);
}

} // verus!
