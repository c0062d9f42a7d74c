//! Runtime policies: watermarks, flush fairness budgets, accept/connect
//! error decisions.
use vstd::prelude::*;
use crate::io::{AcceptDecision, ConnectDecision, IoErrorInfo, classify_accept_error,
    classify_connect_error, accept_decision_spec, connect_decision_spec};

verus! {

/// `a * b`, saturated at `usize::MAX`.
pub open spec fn sat_mul(a: int, b: int) -> int {
    if a * b > usize::MAX { usize::MAX as int } else { a * b }
}

fn saturating_mul_usize(a: usize, b: usize) -> (r: usize)
    ensures
        r as int == sat_mul(a as int, b as int),
{
    match a.checked_mul(b) {
        Some(v) => v,
        None => usize::MAX,
    }
}

/// Accept error policy (defers to `classify_accept_error`).
#[derive(Debug, Clone, Copy, Default)]
pub struct AcceptPolicy;

impl AcceptPolicy {
    pub fn decide(&self, e: &IoErrorInfo) -> (d: AcceptDecision)
        ensures
            d == accept_decision_spec(*e),
    {
        classify_accept_error(e)
    }
}

/// Nonblocking connect error policy (defers to `classify_connect_error`).
#[derive(Debug, Clone, Copy, Default)]
pub struct ConnectPolicy;

impl ConnectPolicy {
    pub fn decide(&self, e: &IoErrorInfo) -> (d: ConnectDecision)
        ensures
            d == connect_decision_spec(*e),
    {
        classify_connect_error(e)
    }
}

/// Watermark policy used by the outbound buffer:
/// `base = max(max_frame, min_frame)`, `high = base * high_mul`,
/// `low = base * low_mul` (both saturating).
#[derive(Debug, Clone, Copy, PartialEq, Eq)]
pub struct WatermarkPolicy {
    pub min_frame: usize,
    pub high_mul: usize,
    pub low_mul: usize,
}

impl Default for WatermarkPolicy {
    fn default() -> (p: Self)
        ensures
            p.min_frame == 1024 && p.high_mul == 8 && p.low_mul == 4,
    {
        WatermarkPolicy { min_frame: 1024, high_mul: 8, low_mul: 4 }
    }
}

/// The `(high, low)` watermarks of a policy for frames of `max_frame` bytes.
pub open spec fn watermarks_spec(p: WatermarkPolicy, max_frame: usize) -> (usize, usize) {
    let base: int = if max_frame > p.min_frame { max_frame as int } else { p.min_frame as int };
    (sat_mul(base, p.high_mul as int) as usize, sat_mul(base, p.low_mul as int) as usize)
}

impl WatermarkPolicy {
    pub fn watermarks(&self, max_frame: usize) -> (r: (usize, usize))
        ensures
            r == watermarks_spec(*self, max_frame),
    {
        let base = if max_frame > self.min_frame { max_frame } else { self.min_frame };
        let high = saturating_mul_usize(base, self.high_mul);
        let low = saturating_mul_usize(base, self.low_mul);
        (high, low)
    }
}

/// Upper bound on iov entries per write call.
pub const MAX_IOV_CAP: usize = 16;

/// Per-flush fairness budget.
#[derive(Debug, Clone, Copy, PartialEq, Eq)]
pub struct FlushBudget {
    /// Maximum bytes to write per flush.
    pub max_bytes: usize,
    /// Maximum write calls per flush.
    pub max_syscalls: usize,
    /// Maximum iov entries per write call (clamped to `MAX_IOV_CAP` at use).
    pub max_iov: usize,
}

impl FlushBudget {
    /// A budget with the default batching shape (`max_iov == 8`).
    pub fn new(max_bytes: usize, max_syscalls: usize) -> (b: Self)
        ensures
            b == (FlushBudget { max_bytes, max_syscalls, max_iov: 8 }),
    {
        FlushBudget { max_bytes, max_syscalls, max_iov: 8 }
    }

    /// Override the preferred maximum iov entries per write call.
    pub fn with_max_iov(self, max_iov: usize) -> (b: Self)
        ensures
            b == (FlushBudget { max_iov, ..self }),
    {
        FlushBudget { max_iov, ..self }
    }
}

impl Default for FlushBudget {
    fn default() -> (b: Self)
        ensures
            b == (FlushBudget { max_bytes: 1, max_syscalls: 1, max_iov: 1 }),
    {
        FlushBudget::new(1, 1).with_max_iov(1)
    }
}

/// Flush fairness policy:
/// `base = max(max_frame, min_frame)`,
/// `max_bytes = max(min(base * max_bytes_mul, max_bytes_cap), 1)`,
/// `max_syscalls = max(max_syscalls, 1)`, `max_iov = clamp(max_iov, 1, MAX_IOV_CAP)`.
#[derive(Debug, Clone, Copy, PartialEq, Eq)]
pub struct FlushPolicy {
    pub min_frame: usize,
    pub max_bytes_mul: usize,
    pub max_bytes_cap: usize,
    pub max_syscalls: usize,
    /// Preferred maximum iov entries per write call.
    pub max_iov: usize,
}

impl Default for FlushPolicy {
    fn default() -> (p: Self)
        ensures
            p == (FlushPolicy {
                min_frame: 65536,
                max_bytes_mul: 32,
                max_bytes_cap: 16777216,
                max_syscalls: 32,
                max_iov: 8,
            }),
    {
        FlushPolicy {
            min_frame: 64 * 1024,
            max_bytes_mul: 32,
            max_bytes_cap: 16 * 1024 * 1024,
            max_syscalls: 32,
            max_iov: 8,
        }
    }
}

/// The flush budget a policy grants for frames of `max_frame` bytes.
pub open spec fn flush_budget_spec(p: FlushPolicy, max_frame: usize) -> FlushBudget {
    let base: int = if max_frame > p.min_frame { max_frame as int } else { p.min_frame as int };
    let m = sat_mul(base, p.max_bytes_mul as int);
    let capped = if m < p.max_bytes_cap { m } else { p.max_bytes_cap as int };
    FlushBudget {
        max_bytes: (if capped < 1 { 1 } else { capped }) as usize,
        max_syscalls: if p.max_syscalls < 1 { 1 } else { p.max_syscalls },
        max_iov: if p.max_iov < 1 { 1 } else if p.max_iov > MAX_IOV_CAP { MAX_IOV_CAP } else { p.max_iov },
    }
}

impl FlushPolicy {
    pub fn budget(&self, max_frame: usize) -> (b: FlushBudget)
        ensures
            b == flush_budget_spec(*self, max_frame),
            b.max_bytes >= 1 && b.max_syscalls >= 1 && 1 <= b.max_iov <= MAX_IOV_CAP,
    {
        let base = if max_frame > self.min_frame { max_frame } else { self.min_frame };
        let m = saturating_mul_usize(base, self.max_bytes_mul);
        let capped = if m < self.max_bytes_cap { m } else { self.max_bytes_cap };
        let max_bytes = if capped < 1 { 1 } else { capped };
        let max_syscalls = if self.max_syscalls < 1 { 1 } else { self.max_syscalls };
        let max_iov = if self.max_iov < 1 { 1 } else if self.max_iov > MAX_IOV_CAP { MAX_IOV_CAP } else { self.max_iov };
        FlushBudget { max_bytes, max_syscalls, max_iov }
    }
}

/// The watermarks are the frame size (raised to `min_frame`) times each
/// multiplier, saturating at `usize::MAX`; a larger multiplier never gives a
/// lower mark.
pub proof fn lemma_watermarks(p: WatermarkPolicy, max_frame: usize)
    ensures
        ({
            let (high, low) = watermarks_spec(p, max_frame);
            let base: int = if max_frame > p.min_frame { max_frame as int } else { p.min_frame as int };
            &&& base * p.high_mul <= usize::MAX ==> high == base * p.high_mul
            &&& base * p.high_mul > usize::MAX ==> high == usize::MAX
            &&& base * p.low_mul <= usize::MAX ==> low == base * p.low_mul
            &&& base * p.low_mul > usize::MAX ==> low == usize::MAX
            &&& p.high_mul >= p.low_mul ==> high >= low
        }),
{
    let base: int = if max_frame > p.min_frame { max_frame as int } else { p.min_frame as int };
    assert(p.high_mul >= p.low_mul ==> base * p.low_mul <= base * p.high_mul) by (nonlinear_arith)
        requires base >= 0;
}

/// The byte budget a policy grants for frames of `max_frame` bytes is the
/// product of the frame size (raised to `min_frame`) and `max_bytes_mul`,
/// saturating at `usize::MAX`, held to `max_bytes_cap`, and at least one:
/// below the cap it is the product itself, never more than the cap (when the
/// cap is at least one), never more than the product (when that is at least
/// one). The syscall budget is `max_syscalls` raised to one, the iov budget
/// `max_iov` clamped to `1..=MAX_IOV_CAP`.
pub proof fn lemma_flush_budget(p: FlushPolicy, max_frame: usize)
    ensures
        ({
            let b = flush_budget_spec(p, max_frame);
            let base: int = if max_frame > p.min_frame { max_frame as int } else { p.min_frame as int };
            let prod: int = if base * p.max_bytes_mul > usize::MAX { usize::MAX as int } else { base * p.max_bytes_mul };
            &&& b.max_bytes >= 1
            &&& 1 <= prod < p.max_bytes_cap ==> b.max_bytes == prod
            &&& p.max_bytes_cap >= 1 ==> b.max_bytes <= p.max_bytes_cap
            &&& prod >= 1 ==> b.max_bytes <= prod
            &&& 1 <= p.max_bytes_cap <= prod ==> b.max_bytes == p.max_bytes_cap
            &&& (prod == 0 || p.max_bytes_cap == 0) ==> b.max_bytes == 1
            &&& b.max_syscalls == (if p.max_syscalls >= 1 { p.max_syscalls } else { 1 })
            &&& 1 <= b.max_iov <= MAX_IOV_CAP
            &&& 1 <= p.max_iov <= MAX_IOV_CAP ==> b.max_iov == p.max_iov
            &&& p.max_iov > MAX_IOV_CAP ==> b.max_iov == MAX_IOV_CAP
        }),
{
}

/// With a non-zero low multiplier strictly below the high one, the default
/// watermark shape keeps `high > low` for any frame size that does not
/// saturate.
pub proof fn lemma_watermarks_ordered(p: WatermarkPolicy, max_frame: usize)
    requires
        p.high_mul > p.low_mul,
        (if max_frame > p.min_frame { max_frame as int } else { p.min_frame as int }) >= 1,
        (if max_frame > p.min_frame { max_frame as int } else { p.min_frame as int }) * p.high_mul <= usize::MAX,
    ensures
        watermarks_spec(p, max_frame).0 > watermarks_spec(p, max_frame).1,
{
    let base: int = if max_frame > p.min_frame { max_frame as int } else { p.min_frame as int };
    assert(base * p.low_mul < base * p.high_mul) by (nonlinear_arith)
        requires base >= 1, p.high_mul > p.low_mul;
}

} // verus!
