//! Per-connection state machine: IO handle, outbound buffer, backpressure,
//! draining and close bookkeeping, and per-read decode statistics.
use vstd::prelude::*;
use crate::uci::{EvidenceEvent, Instant, KernelError, RxToken};
use crate::evidence::EvidenceSink;
use crate::io::{IoOps, log_extends};
use crate::names;
use crate::policy::FlushBudget;
use crate::reactor::Interest;
use crate::framing::cumulation::concat;
use crate::outbound::frame::{OutboundFrame, frame_bytes};
use crate::outbound::buffer::{OutboundBuffer, FlushStatus, WritabilityChange, next_writable, flush_log_ok, log_realizes,
    call_segs_ok, nonempty_segs,
    writability_change_spec};

verus! {

/// The channel id carried in the high 32 bits of a receive token.
pub fn tok_chan_id(tok: RxToken) -> (r: u32)
    ensures
        r as int == tok.0 as int / 0x1_0000_0000,
{
    let v = tok.0;
    assert(v >> 32u64 == v / 0x1_0000_0000u64) by (bit_vector);
    (v >> 32u64) as u32
}

/// One read chunk: bytes borrowed for the current call, or owned bytes.
#[derive(Debug)]
pub enum ReadChunk<'a> {
    Borrowed(&'a [u8]),
    Owned(Vec<u8>),
}

impl<'a> ReadChunk<'a> {
    /// The chunk's bytes.
    pub open spec fn bytes(&self) -> Seq<u8> {
        match self {
            ReadChunk::Borrowed(b) => b@,
            ReadChunk::Owned(v) => v@,
        }
    }

    pub fn len(&self) -> (n: usize)
        ensures
            n as int == self.bytes().len(),
    {
        match self {
            ReadChunk::Borrowed(b) => b.len(),
            ReadChunk::Owned(v) => v.len(),
        }
    }

    pub fn is_empty(&self) -> (r: bool)
        ensures
            r == (self.bytes().len() == 0),
    {
        self.len() == 0
    }
}

/// Why a channel is closing, for observability.
#[derive(Debug, Clone, Copy, PartialEq, Eq)]
pub enum CloseCause {
    /// No close has been requested or observed.
    Unset,
    /// Local requested close.
    Requested,
    /// Peer half-closed its write side (EOF).
    PeerHalfClose,
    /// An IO error forced the close.
    Error(KernelError),
}

/// The `CloseComplete` reason text of a close cause.
pub open spec fn close_reason_text(cause: CloseCause) -> Seq<char> {
    match cause {
        CloseCause::Requested => "requested"@,
        CloseCause::PeerHalfClose => "peer_half_close"@,
        CloseCause::Error(KernelError::Reset) => "reset"@,
        CloseCause::Error(KernelError::Timeout) => "timeout"@,
        CloseCause::Error(_) => "error"@,
        CloseCause::Unset => "closed"@,
    }
}

/// The reason reported on close completion.
pub open spec fn close_reason_str(cause: CloseCause) -> &'static str {
    match cause {
        CloseCause::Requested => "requested",
        CloseCause::PeerHalfClose => "peer_half_close",
        CloseCause::Error(KernelError::Reset) => "reset",
        CloseCause::Error(KernelError::Timeout) => "timeout",
        CloseCause::Error(_) => "error",
        CloseCause::Unset => "closed",
    }
}

/// The reason reported on close completion, and whether the close was
/// abortive (a reset).
pub fn close_reason(cause: CloseCause) -> (r: (&'static str, bool))
    ensures
        r.0 == close_reason_str(cause),
        r.0@ == close_reason_text(cause),
        r.1 == (cause == CloseCause::Error(KernelError::Reset)),
{
    match cause {
        CloseCause::Requested => ("requested", false),
        CloseCause::PeerHalfClose => ("peer_half_close", false),
        CloseCause::Error(KernelError::Reset) => ("reset", true),
        CloseCause::Error(KernelError::Timeout) => ("timeout", false),
        CloseCause::Error(_) => ("error", false),
        CloseCause::Unset => ("closed", false),
    }
}

/// Interest bits for a channel: READ unless reads are paused, WRITE while
/// outbound bytes are queued.
pub open spec fn desired_bits(read_paused: bool, has_outbound: bool) -> u8 {
    match (read_paused, has_outbound) {
        (true, true) => 2,
        (true, false) => 0,
        (false, true) => 3,
        (false, false) => 1,
    }
}

/// `a + b`, saturated at `u64::MAX`.
pub open spec fn sat_add_u64(a: u64, b: int) -> u64 {
    if a + b > u64::MAX { u64::MAX } else { (a + b) as u64 }
}

/// `a + b`, saturated at `usize::MAX`.
pub open spec fn sat_add_usize(a: usize, b: int) -> usize {
    if a + b > usize::MAX { usize::MAX } else { (a + b) as usize }
}

/// The per-read decode statistics accumulated by a channel.
#[derive(Debug, Clone, Copy, PartialEq, Eq)]
pub struct DecodeStats {
    pub decoded: usize,
    pub decode_errors: usize,
    pub frame_too_large: u64,
    pub coalesce_count: u64,
    pub copied_bytes: u64,
    pub cumulation_copy_bytes: u64,
    pub lease_tokens: u64,
    pub lease_borrowed_bytes: u64,
    pub materialize_bytes: u64,
}

/// No statistics recorded.
pub open spec fn zero_stats() -> DecodeStats {
    DecodeStats {
        decoded: 0,
        decode_errors: 0,
        frame_too_large: 0,
        coalesce_count: 0,
        copied_bytes: 0,
        cumulation_copy_bytes: 0,
        lease_tokens: 0,
        lease_borrowed_bytes: 0,
        materialize_bytes: 0,
    }
}

/// The state machine of one connection.
pub struct ChannelState<Ev: EvidenceSink, Io: IoOps> {
    chan_id: u32,
    io: Io,
    outbound: OutboundBuffer,
    flush_budget: FlushBudget,
    evidence: Ev,
    read_paused: bool,
    close_requested: bool,
    close_cause: CloseCause,
    close_complete_emitted: bool,
    draining: bool,
    draining_deadline: Option<Instant>,
    close_after_flush: bool,
    peer_eof: bool,
    pending_writability: WritabilityChange,
    stats: DecodeStats,
    emitted: Ghost<Seq<EvidenceEvent>>,
}

/// The observable flags of a channel.
#[derive(Debug, Clone, Copy, PartialEq, Eq)]
pub struct ChannelFlags {
    pub read_paused: bool,
    pub close_requested: bool,
    pub close_cause: CloseCause,
    pub close_complete_emitted: bool,
    pub draining: bool,
    pub draining_deadline: Option<Instant>,
    pub close_after_flush: bool,
    pub peer_eof: bool,
    pub pending_writability: WritabilityChange,
}

/// Flags after a close request: reads stop, the cause is kept if one is set.
pub open spec fn request_close_spec(f: ChannelFlags) -> ChannelFlags {
    if f.close_requested {
        f
    } else {
        ChannelFlags {
            close_requested: true,
            read_paused: true,
            close_cause: if f.close_cause == CloseCause::Unset { CloseCause::Requested } else { f.close_cause },
            ..f
        }
    }
}

/// Flags after a writability change is applied: becoming unwritable pauses
/// reads, becoming writable resumes them; either is remembered for the
/// driver to take.
pub open spec fn apply_writability_spec(f: ChannelFlags, wc: WritabilityChange) -> ChannelFlags {
    match wc {
        WritabilityChange::Unchanged => f,
        WritabilityChange::BecameUnwritable { .. } => ChannelFlags { read_paused: true, pending_writability: wc, ..f },
        WritabilityChange::BecameWritable { .. } => ChannelFlags { read_paused: false, pending_writability: wc, ..f },
    }
}

/// Flags after a draining poll at time `now` with `pending` outbound bytes:
/// a flushed close-after-flush channel, or one past its deadline, stops
/// draining and requests close.
pub open spec fn poll_draining_spec(f: ChannelFlags, pending: int, inflight: u32, now: Instant) -> ChannelFlags {
    if !f.draining {
        f
    } else if f.close_after_flush && pending == 0 && inflight == 0 {
        request_close_spec(ChannelFlags { draining: false, ..f })
    } else if f.draining_deadline matches Some(d) && now.0 >= d.0 {
        request_close_spec(ChannelFlags { draining: false, ..f })
    } else {
        f
    }
}

/// Requesting close twice is the same as requesting it once.
pub proof fn lemma_request_close_idempotent(f: ChannelFlags)
    ensures
        request_close_spec(request_close_spec(f)) == request_close_spec(f),
        request_close_spec(f).close_requested,
        !f.close_requested ==> request_close_spec(f).read_paused,
        f.close_cause != CloseCause::Unset ==> request_close_spec(f).close_cause == f.close_cause,
{
}

/// Closing is reported once: a second close request emits no second
/// `CloseRequested`, and a second close completion no second `CloseComplete`.
pub proof fn lemma_close_evidence_once(f: ChannelFlags, events: Seq<EvidenceEvent>, chan_id: u32, pending: int)
    ensures
        request_close_events(request_close_spec(f), request_close_events(f, events, chan_id, pending), chan_id, pending)
            == request_close_events(f, events, chan_id, pending),
        close_complete_events(ChannelFlags { close_complete_emitted: true, ..f },
            close_complete_events(f, events, chan_id, pending), chan_id, pending)
            == close_complete_events(f, events, chan_id, pending),
{
}

/// A draining channel that asked to close after flushing closes as soon as
/// nothing is pending and no task is in flight, and stops draining.
pub proof fn lemma_drained_channel_closes(f: ChannelFlags, now: Instant)
    requires
        f.draining,
        f.close_after_flush,
    ensures
        poll_draining_spec(f, 0, 0, now).close_requested,
        !poll_draining_spec(f, 0, 0, now).draining,
{
}

/// An evidence event about channel `chan_id`.
pub open spec fn channel_event(
    chan_id: u32,
    name: &'static str,
    reason: &'static str,
    value: u64,
    unit: &'static str,
    unit_mapping: &'static str,
    pending_write_bytes: u64,
    inflight: u32,
) -> EvidenceEvent {
    EvidenceEvent {
        name,
        reason,
        value,
        unit,
        unit_mapping,
        scope: "channel",
        scope_id: chan_id as u64,
        channel_id: chan_id,
        pending_write_bytes,
        inflight,
    }
}

/// Events of a close request with `pending` outbound bytes: `CloseRequested`,
/// the first time only.
pub open spec fn request_close_events(f: ChannelFlags, events: Seq<EvidenceEvent>, chan_id: u32, pending: int)
    -> Seq<EvidenceEvent>
{
    if f.close_requested {
        events
    } else {
        events.push(channel_event(chan_id, names::CLOSE_REQUESTED, "request_close", 1, "count",
            names::UNITMAP_CLOSE_V1, pending as u64, 0))
    }
}

/// Events of a draining poll (see `poll_draining_spec`): `DrainingExit` or
/// `DrainingTimeout`, then those of the close request.
pub open spec fn poll_draining_events(
    f: ChannelFlags,
    events: Seq<EvidenceEvent>,
    chan_id: u32,
    pending: int,
    inflight: u32,
    now: Instant,
) -> Seq<EvidenceEvent> {
    if !f.draining {
        events
    } else if f.close_after_flush && pending == 0 && inflight == 0 {
        request_close_events(f, events.push(channel_event(chan_id, names::DRAINING_EXIT, "flush_completed", 1,
            "count", names::UNITMAP_DRAINING_V1, 0, inflight)), chan_id, pending)
    } else if f.draining_deadline matches Some(d) && now.0 >= d.0 {
        request_close_events(f, events.push(channel_event(chan_id, names::DRAINING_TIMEOUT, "timeout_close", 1,
            "count", names::UNITMAP_DRAINING_V1, pending as u64, inflight)), chan_id, pending)
    } else {
        events
    }
}

/// Events of a writability change: `BackpressureEnter` or `BackpressureExit`.
pub open spec fn writability_events(wc: WritabilityChange, events: Seq<EvidenceEvent>, chan_id: u32)
    -> Seq<EvidenceEvent>
{
    match wc {
        WritabilityChange::Unchanged => events,
        WritabilityChange::BecameUnwritable { pending_bytes } => events.push(channel_event(chan_id,
            names::BACKPRESSURE_ENTER, "high_watermark", pending_bytes as u64, "bytes",
            names::UNITMAP_BACKPRESSURE_BYTES_V1, pending_bytes as u64, 0)),
        WritabilityChange::BecameWritable { pending_bytes } => events.push(channel_event(chan_id,
            names::BACKPRESSURE_EXIT, "low_watermark", pending_bytes as u64, "bytes",
            names::UNITMAP_BACKPRESSURE_BYTES_V1, pending_bytes as u64, 0)),
    }
}

/// Events of a close completion: `CloseComplete`, and `AbortiveClose` after
/// a reset, the first time only.
pub open spec fn close_complete_events(f: ChannelFlags, events: Seq<EvidenceEvent>, chan_id: u32, pending: int)
    -> Seq<EvidenceEvent>
{
    if f.close_complete_emitted {
        events
    } else {
        let reason = close_reason_str(f.close_cause);
        let done = events.push(channel_event(chan_id, names::CLOSE_COMPLETE, reason, 1, "count",
            names::UNITMAP_CLOSE_V1, pending as u64, 0));
        if f.close_cause == CloseCause::Error(KernelError::Reset) {
            done.push(channel_event(chan_id, names::ABORTIVE_CLOSE, reason, 1, "count", names::UNITMAP_CLOSE_V1,
                pending as u64, 0))
        } else {
            done
        }
    }
}

impl<Ev: EvidenceSink, Io: IoOps> ChannelState<Ev, Io> {
    pub closed spec fn spec_chan_id(&self) -> u32 {
        self.chan_id
    }

    /// The IO handle.
    pub closed spec fn io(&self) -> Io {
        self.io
    }

    /// The outbound buffer.
    pub closed spec fn outbound(&self) -> OutboundBuffer {
        self.outbound
    }

    pub closed spec fn spec_flush_budget(&self) -> FlushBudget {
        self.flush_budget
    }

    pub closed spec fn flags(&self) -> ChannelFlags {
        ChannelFlags {
            read_paused: self.read_paused,
            close_requested: self.close_requested,
            close_cause: self.close_cause,
            close_complete_emitted: self.close_complete_emitted,
            draining: self.draining,
            draining_deadline: self.draining_deadline,
            close_after_flush: self.close_after_flush,
            peer_eof: self.peer_eof,
            pending_writability: self.pending_writability,
        }
    }

    pub closed spec fn stats(&self) -> DecodeStats {
        self.stats
    }

    /// The evidence events emitted so far, oldest first.
    pub closed spec fn events(&self) -> Seq<EvidenceEvent> {
        self.emitted@
    }

    pub closed spec fn wf(&self) -> bool {
        self.outbound.wf()
    }

    /// A fresh channel: readable, nothing queued, nothing pending.
    pub fn new(chan_id: u32, io: Io, high_watermark: usize, low_watermark: usize, flush_budget: FlushBudget, evidence: Ev) -> (s: Self)
        ensures
            s.wf(),
            s.spec_chan_id() == chan_id,
            s.io() == io,
            s.outbound()@ == Seq::<Seq<u8>>::empty(),
            s.outbound().high_mark() == (if high_watermark > 1 { high_watermark as int } else { 1 }),
            s.outbound().low_mark() == (if low_watermark < high_watermark { low_watermark as int } else { high_watermark as int }),
            s.outbound().writable(),
            s.spec_flush_budget() == flush_budget,
            s.flags() == (ChannelFlags {
                read_paused: false,
                close_requested: false,
                close_cause: CloseCause::Unset,
                close_complete_emitted: false,
                draining: false,
                draining_deadline: None,
                close_after_flush: false,
                peer_eof: false,
                pending_writability: WritabilityChange::Unchanged,
            }),
            s.stats() == zero_stats(),
            s.events() == Seq::<EvidenceEvent>::empty(),
    {
        ChannelState {
            chan_id,
            io,
            outbound: OutboundBuffer::new(high_watermark, low_watermark),
            flush_budget,
            evidence,
            read_paused: false,
            close_requested: false,
            close_cause: CloseCause::Unset,
            close_complete_emitted: false,
            draining: false,
            draining_deadline: None,
            close_after_flush: false,
            peer_eof: false,
            pending_writability: WritabilityChange::Unchanged,
            stats: DecodeStats {
                decoded: 0,
                decode_errors: 0,
                frame_too_large: 0,
                coalesce_count: 0,
                copied_bytes: 0,
                cumulation_copy_bytes: 0,
                lease_tokens: 0,
                lease_borrowed_bytes: 0,
                materialize_bytes: 0,
            },
            emitted: Ghost(Seq::empty()),
        }
    }

    pub fn chan_id(&self) -> (r: u32)
        ensures
            r == self.spec_chan_id(),
    {
        self.chan_id
    }

    /// Mutable access to the IO handle; everything else stays as it is.
    pub fn io_mut(&mut self) -> (r: &mut Io)
        ensures
            final(self).wf() == old(self).wf(),
            *r == old(self).io(),
            final(self).io() == *final(r),
            final(self).outbound() == old(self).outbound(),
            final(self).flags() == old(self).flags(),
            final(self).stats() == old(self).stats(),
            final(self).events() == old(self).events(),
            final(self).spec_chan_id() == old(self).spec_chan_id(),
            final(self).spec_flush_budget() == old(self).spec_flush_budget(),
    {
        &mut self.io
    }

    pub fn is_read_paused(&self) -> (r: bool)
        ensures
            r == self.flags().read_paused,
    {
        self.read_paused
    }

    pub fn peer_eof(&self) -> (r: bool)
        ensures
            r == self.flags().peer_eof,
    {
        self.peer_eof
    }

    pub fn is_draining(&self) -> (r: bool)
        ensures
            r == self.flags().draining,
    {
        self.draining
    }

    pub fn is_close_requested(&self) -> (r: bool)
        ensures
            r == self.flags().close_requested,
    {
        self.close_requested
    }

    pub fn is_writable(&self) -> (r: bool)
        ensures
            r == self.outbound().writable(),
    {
        self.outbound.is_writable()
    }

    fn emit_event(&mut self, name: &'static str, reason: &'static str, value: u64, unit: &'static str,
        unit_mapping: &'static str, pending_write_bytes: u64, inflight: u32)
        ensures
            final(self).events() == old(self).events().push(channel_event(old(self).chan_id, name, reason, value,
                unit, unit_mapping, pending_write_bytes, inflight)),
            final(self).flags() == old(self).flags(),
            final(self).io() == old(self).io(),
            final(self).outbound() == old(self).outbound(),
            final(self).stats() == old(self).stats(),
            final(self).spec_chan_id() == old(self).spec_chan_id(),
            final(self).spec_flush_budget() == old(self).spec_flush_budget(),
    {
        proof {
            self.emitted = Ghost(self.emitted@.push(channel_event(self.chan_id, name, reason, value, unit,
                unit_mapping, pending_write_bytes, inflight)));
        }
        self.evidence.emit(EvidenceEvent {
            name,
            reason,
            value,
            unit,
            unit_mapping,
            scope: "channel",
            scope_id: self.chan_id as u64,
            channel_id: self.chan_id,
            pending_write_bytes,
            inflight,
        });
    }

    /// Outbound bytes queued and not yet written.
    pub fn pending_outbound_bytes(&self) -> (n: usize)
        requires
            self.wf(),
        ensures
            n as int == concat(self.outbound()@).len(),
    {
        self.outbound.bytes_total()
    }

    fn pending_u64(&self) -> (r: u64)
        requires
            self.wf(),
        ensures
            r as int == concat(self.outbound@).len(),
    {
        self.outbound.bytes_total() as u64
    }

    /// Record a peer half-close: reads stop for good (the outbound side may
    /// still flush); the first observation also sets the close cause if none.
    pub fn mark_peer_eof(&mut self)
        requires
            old(self).wf(),
        ensures
            final(self).wf(),
            final(self).flags() == (if old(self).flags().peer_eof {
                old(self).flags()
            } else {
                ChannelFlags {
                    peer_eof: true,
                    read_paused: true,
                    close_cause: if old(self).flags().close_cause == CloseCause::Unset {
                        CloseCause::PeerHalfClose
                    } else {
                        old(self).flags().close_cause
                    },
                    ..old(self).flags()
                }
            }),
            final(self).outbound() == old(self).outbound(),
            final(self).io() == old(self).io(),
            final(self).stats() == old(self).stats(),
            final(self).spec_chan_id() == old(self).spec_chan_id(),
            final(self).events() == (if old(self).flags().peer_eof {
                old(self).events()
            } else {
                old(self).events().push(channel_event(old(self).spec_chan_id(), names::PEER_HALF_CLOSE, "peer_eof",
                    1, "count", names::UNITMAP_CLOSE_V1, concat(old(self).outbound()@).len() as u64, 0))
            }),
    {
        if self.peer_eof {
            return;
        }
        self.peer_eof = true;
        self.read_paused = true;
        if let CloseCause::Unset = self.close_cause {
            self.close_cause = CloseCause::PeerHalfClose;
        }
        let pending = self.pending_u64();
        self.emit_event(names::PEER_HALF_CLOSE, "peer_eof", 1, "count", names::UNITMAP_CLOSE_V1, pending, 0);
    }

    /// The reactor interest this channel wants.
    pub fn desired_interest(&self) -> (i: Interest)
        requires
            self.wf(),
        ensures
            i.bits() == desired_bits(self.flags().read_paused, self.outbound()@.len() > 0),
    {
        let has_outbound = !self.outbound.is_empty();
        assert(1u8 | 2u8 == 3u8) by (bit_vector);
        if self.read_paused {
            if has_outbound { Interest::write() } else { Interest::empty() }
        } else {
            if has_outbound { Interest::read().union(Interest::write()) } else { Interest::read() }
        }
    }

    /// Request close: reads stop and the IO handle is asked to close (its
    /// answer is ignored). Idempotent.
    pub fn request_close(&mut self)
        requires
            old(self).wf(),
        ensures
            final(self).wf(),
            final(self).flags() == request_close_spec(old(self).flags()),
            old(self).flags().close_requested ==> final(self).io() == old(self).io(),
            final(self).io().written() == old(self).io().written(),
            final(self).io().write_log() == old(self).io().write_log(),
            final(self).outbound() == old(self).outbound(),
            final(self).stats() == old(self).stats(),
            final(self).spec_chan_id() == old(self).spec_chan_id(),
            final(self).spec_flush_budget() == old(self).spec_flush_budget(),
            final(self).events() == request_close_events(old(self).flags(), old(self).events(),
                old(self).spec_chan_id(), concat(old(self).outbound()@).len() as int),
    {
        if self.close_requested {
            return;
        }
        self.close_requested = true;
        self.read_paused = true;
        if let CloseCause::Unset = self.close_cause {
            self.close_cause = CloseCause::Requested;
        }
        let pending = self.pending_u64();
        self.emit_event(names::CLOSE_REQUESTED, "request_close", 1, "count", names::UNITMAP_CLOSE_V1, pending, 0);
        let _ = self.io.close();
    }

    /// Enter draining at time `now`: reads stop, writes may still flush, and
    /// the channel closes once flushed (if asked) or at `now + timeout_nanos`.
    /// Idempotent.
    pub fn enter_draining(&mut self, close_after_flush: bool, timeout_nanos: u64, inflight: u32, now: Instant)
        requires
            old(self).wf(),
            now.0 + timeout_nanos <= u64::MAX,
        ensures
            final(self).wf(),
            final(self).flags() == (if old(self).flags().draining {
                old(self).flags()
            } else {
                ChannelFlags {
                    draining: true,
                    read_paused: true,
                    close_after_flush,
                    draining_deadline: Some(Instant((now.0 + timeout_nanos) as u64)),
                    ..old(self).flags()
                }
            }),
            final(self).io() == old(self).io(),
            final(self).outbound() == old(self).outbound(),
            final(self).stats() == old(self).stats(),
            final(self).spec_chan_id() == old(self).spec_chan_id(),
            final(self).events() == (if old(self).flags().draining {
                old(self).events()
            } else {
                old(self).events().push(channel_event(old(self).spec_chan_id(), names::DRAINING_ENTER,
                    "enter_draining", 1, "count", names::UNITMAP_DRAINING_V1,
                    concat(old(self).outbound()@).len() as u64, inflight))
            }),
    {
        if self.draining {
            return;
        }
        self.draining = true;
        self.read_paused = true;
        self.close_after_flush = close_after_flush;
        self.draining_deadline = Some(Instant(now.0 + timeout_nanos));
        let pending = self.pending_u64();
        self.emit_event(names::DRAINING_ENTER, "enter_draining", 1, "count", names::UNITMAP_DRAINING_V1, pending, inflight);
    }

    /// Advance draining at time `now`.
    pub fn poll_draining(&mut self, inflight: u32, now: Instant)
        requires
            old(self).wf(),
        ensures
            final(self).wf(),
            final(self).flags() == poll_draining_spec(old(self).flags(), concat(old(self).outbound()@).len() as int,
                inflight, now),
            final(self).io().written() == old(self).io().written(),
            final(self).io().write_log() == old(self).io().write_log(),
            final(self).outbound() == old(self).outbound(),
            final(self).stats() == old(self).stats(),
            final(self).spec_chan_id() == old(self).spec_chan_id(),
            final(self).events() == poll_draining_events(old(self).flags(), old(self).events(),
                old(self).spec_chan_id(), concat(old(self).outbound()@).len() as int, inflight, now),
    {
        if !self.draining {
            return;
        }
        let pending = self.outbound.bytes_total();
        if self.close_after_flush && pending == 0 && inflight == 0 {
            self.draining = false;
            self.emit_event(names::DRAINING_EXIT, "flush_completed", 1, "count", names::UNITMAP_DRAINING_V1, 0, inflight);
            self.request_close();
            return;
        }
        if let Some(deadline) = self.draining_deadline {
            if now.0 >= deadline.0 {
                self.draining = false;
                self.emit_event(names::DRAINING_TIMEOUT, "timeout_close", 1, "count", names::UNITMAP_DRAINING_V1,
                    pending as u64, inflight);
                self.request_close();
            }
        }
    }

    /// Record a close-causing IO error.
    pub fn note_close_error(&mut self, err: KernelError)
        ensures
            final(self).wf() == old(self).wf(),
            final(self).flags() == (ChannelFlags {
                close_cause: CloseCause::Error(err),
                close_requested: true,
                read_paused: true,
                ..old(self).flags()
            }),
            final(self).io() == old(self).io(),
            final(self).outbound() == old(self).outbound(),
            final(self).stats() == old(self).stats(),
            final(self).events() == old(self).events(),
            final(self).spec_chan_id() == old(self).spec_chan_id(),
    {
        self.close_cause = CloseCause::Error(err);
        self.close_requested = true;
        self.read_paused = true;
    }

    /// Emit the close-completion evidence (and the abortive-close one for a
    /// reset) at most once.
    pub fn emit_close_complete(&mut self)
        requires
            old(self).wf(),
        ensures
            final(self).wf(),
            final(self).flags() == (ChannelFlags { close_complete_emitted: true, ..old(self).flags() }),
            final(self).io() == old(self).io(),
            final(self).outbound() == old(self).outbound(),
            final(self).stats() == old(self).stats(),
            final(self).spec_chan_id() == old(self).spec_chan_id(),
            final(self).events() == close_complete_events(old(self).flags(), old(self).events(),
                old(self).spec_chan_id(), concat(old(self).outbound()@).len() as int),
    {
        if self.close_complete_emitted {
            return;
        }
        self.close_complete_emitted = true;
        let (reason, abortive) = close_reason(self.close_cause);
        let pending = self.pending_u64();
        self.emit_event(names::CLOSE_COMPLETE, reason, 1, "count", names::UNITMAP_CLOSE_V1, pending, 0);
        if abortive {
            self.emit_event(names::ABORTIVE_CLOSE, reason, 1, "count", names::UNITMAP_CLOSE_V1, pending, 0);
        }
    }

    fn apply_writability_change(&mut self, wc: WritabilityChange)
        ensures
            final(self).flags() == apply_writability_spec(old(self).flags(), wc),
            final(self).events() == writability_events(wc, old(self).events(), old(self).spec_chan_id()),
            final(self).io() == old(self).io(),
            final(self).outbound() == old(self).outbound(),
            final(self).stats() == old(self).stats(),
            final(self).spec_chan_id() == old(self).spec_chan_id(),
            final(self).spec_flush_budget() == old(self).spec_flush_budget(),
    {
        match wc {
            WritabilityChange::Unchanged => {},
            WritabilityChange::BecameUnwritable { pending_bytes } => {
                self.read_paused = true;
                self.pending_writability = wc;
                self.emit_event(names::BACKPRESSURE_ENTER, "high_watermark", pending_bytes as u64, "bytes",
                    names::UNITMAP_BACKPRESSURE_BYTES_V1, pending_bytes as u64, 0);
            },
            WritabilityChange::BecameWritable { pending_bytes } => {
                self.read_paused = false;
                self.pending_writability = wc;
                self.emit_event(names::BACKPRESSURE_EXIT, "low_watermark", pending_bytes as u64, "bytes",
                    names::UNITMAP_BACKPRESSURE_BYTES_V1, pending_bytes as u64, 0);
            },
        }
    }

    /// Queue a frame (`write`): only queueing and watermarks, no IO.
    pub fn enqueue_outbound(&mut self, frame: OutboundFrame)
        requires
            old(self).wf(),
            frame.wf(),
            concat(old(self).outbound()@).len() + frame_bytes(frame@).len() <= usize::MAX,
        ensures
            final(self).wf(),
            final(self).outbound()@ == old(self).outbound()@.push(frame_bytes(frame@)),
            final(self).outbound().pending_segs() == old(self).outbound().pending_segs() + nonempty_segs(frame@),
            final(self).outbound().high_mark() == old(self).outbound().high_mark(),
            final(self).outbound().low_mark() == old(self).outbound().low_mark(),
            final(self).outbound().writable() == next_writable(old(self).outbound().writable(),
                concat(final(self).outbound()@).len() as int, old(self).outbound().high_mark(),
                old(self).outbound().low_mark()),
            final(self).flags() == apply_writability_spec(old(self).flags(),
                writability_change_spec(old(self).outbound().writable(), final(self).outbound().writable(),
                    concat(final(self).outbound()@).len() as int)),
            final(self).io() == old(self).io(),
            final(self).stats() == old(self).stats(),
            final(self).spec_chan_id() == old(self).spec_chan_id(),
            final(self).spec_flush_budget() == old(self).spec_flush_budget(),
            final(self).events() == writability_events(writability_change_spec(old(self).outbound().writable(),
                final(self).outbound().writable(), concat(final(self).outbound()@).len() as int), old(self).events(),
                old(self).spec_chan_id()),
    {
        let wc = self.outbound.enqueue(frame);
        self.apply_writability_change(wc);
    }

    /// Drain the outbound buffer into the IO handle within the flush budget:
    /// `(status, bytes_written, syscalls, writev_calls)`.
    pub fn flush_outbound(&mut self) -> (r: (FlushStatus, usize, u64, u64))
        requires
            old(self).wf(),
        ensures
            final(self).wf(),
            r.1 <= concat(old(self).outbound()@).len(),
            concat(final(self).outbound()@) == concat(old(self).outbound()@).skip(r.1 as int),
            final(self).io().written() == old(self).io().written() + concat(old(self).outbound()@).take(r.1 as int),
            (r.0 == FlushStatus::Drained) == (final(self).outbound()@.len() == 0),
            r.0 == FlushStatus::Limited ==> r.1 >= old(self).spec_flush_budget().max_bytes
                || r.2 >= old(self).spec_flush_budget().max_syscalls,
            r.2 <= old(self).spec_flush_budget().max_syscalls,
            r.3 <= r.2,
            flush_log_ok(final(self).outbound().last_flush(), concat(old(self).outbound()@),
                old(self).spec_flush_budget(), r.0, r.1, r.2, r.3),
            log_extends(final(self).io().write_log(), old(self).io().write_log()),
            log_realizes(final(self).io().write_log().skip(old(self).io().write_log().len() as int),
                final(self).outbound().last_flush()),
            forall|i: int| 0 <= i < final(self).outbound().last_flush().len()
                ==> #[trigger] call_segs_ok(final(self).outbound().last_flush(), i,
                    old(self).outbound().pending_segs(), old(self).spec_flush_budget()),
            final(self).outbound().high_mark() == old(self).outbound().high_mark(),
            final(self).outbound().low_mark() == old(self).outbound().low_mark(),
            final(self).outbound().writable() == next_writable(old(self).outbound().writable(),
                concat(final(self).outbound()@).len() as int, old(self).outbound().high_mark(),
                old(self).outbound().low_mark()),
            final(self).flags() == apply_writability_spec(old(self).flags(),
                writability_change_spec(old(self).outbound().writable(), final(self).outbound().writable(),
                    concat(final(self).outbound()@).len() as int)),
            final(self).stats() == old(self).stats(),
            final(self).spec_chan_id() == old(self).spec_chan_id(),
            final(self).spec_flush_budget() == old(self).spec_flush_budget(),
            ({
                let pending = concat(final(self).outbound()@).len();
                let w = writability_events(writability_change_spec(old(self).outbound().writable(),
                    final(self).outbound().writable(), pending as int), old(self).events(), old(self).spec_chan_id());
                final(self).events() == (if r.0 == FlushStatus::Limited {
                    w.push(channel_event(old(self).spec_chan_id(), names::FLUSH_LIMITED, "flush_budget",
                        pending as u64, "bytes", names::UNITMAP_FLUSH_LIMITED_V1, pending as u64, 0))
                } else {
                    w
                })
            }),
    {
        let (st, wrote, syscalls, writev_calls, wc) = self.outbound.flush_into(&mut self.io, self.flush_budget);
        self.apply_writability_change(wc);
        if let FlushStatus::Limited = st {
            let pending = self.pending_u64();
            self.emit_event(names::FLUSH_LIMITED, "flush_budget", pending, "bytes", names::UNITMAP_FLUSH_LIMITED_V1,
                pending, 0);
        }
        (st, wrote, syscalls, writev_calls)
    }

    /// Take the pending writability change for the driver.
    pub fn take_writability_change(&mut self) -> (wc: WritabilityChange)
        ensures
            final(self).wf() == old(self).wf(),
            wc == old(self).flags().pending_writability,
            final(self).flags() == (ChannelFlags { pending_writability: WritabilityChange::Unchanged, ..old(self).flags() }),
            final(self).events() == old(self).events(),
            final(self).io() == old(self).io(),
            final(self).outbound() == old(self).outbound(),
            final(self).stats() == old(self).stats(),
            final(self).spec_chan_id() == old(self).spec_chan_id(),
    {
        let wc = self.pending_writability;
        self.pending_writability = WritabilityChange::Unchanged;
        wc
    }

    /// Count one leased receive token of `bytes` bytes.
    pub fn record_rx_lease_borrowed(&mut self, bytes: usize)
        ensures
            final(self).wf() == old(self).wf(),
            final(self).stats() == (DecodeStats {
                lease_tokens: sat_add_u64(old(self).stats().lease_tokens, 1),
                lease_borrowed_bytes: sat_add_u64(old(self).stats().lease_borrowed_bytes, bytes as int),
                ..old(self).stats()
            }),
            final(self).flags() == old(self).flags(),
            final(self).io() == old(self).io(),
            final(self).outbound() == old(self).outbound(),
            final(self).spec_chan_id() == old(self).spec_chan_id(),
            final(self).events() == old(self).events(),
    {
        self.stats.lease_tokens = self.stats.lease_tokens.saturating_add(1);
        self.stats.lease_borrowed_bytes = self.stats.lease_borrowed_bytes.saturating_add(bytes as u64);
    }

    /// Count bytes copied out of a leased token.
    pub fn record_rx_materialize_bytes(&mut self, bytes: usize)
        ensures
            final(self).wf() == old(self).wf(),
            final(self).stats() == (DecodeStats {
                materialize_bytes: sat_add_u64(old(self).stats().materialize_bytes, bytes as int),
                ..old(self).stats()
            }),
            final(self).flags() == old(self).flags(),
            final(self).io() == old(self).io(),
            final(self).outbound() == old(self).outbound(),
            final(self).spec_chan_id() == old(self).spec_chan_id(),
            final(self).events() == old(self).events(),
    {
        self.stats.materialize_bytes = self.stats.materialize_bytes.saturating_add(bytes as u64);
    }

    /// Count decoded messages of this read round.
    pub fn record_decoded(&mut self, n: usize)
        ensures
            final(self).wf() == old(self).wf(),
            final(self).stats() == (DecodeStats {
                decoded: sat_add_usize(old(self).stats().decoded, n as int),
                ..old(self).stats()
            }),
            final(self).flags() == old(self).flags(),
            final(self).io() == old(self).io(),
            final(self).outbound() == old(self).outbound(),
            final(self).spec_chan_id() == old(self).spec_chan_id(),
            final(self).events() == old(self).events(),
    {
        self.stats.decoded = self.stats.decoded.saturating_add(n);
    }

    /// Count one decode error of this read round.
    pub fn record_decode_error(&mut self)
        ensures
            final(self).wf() == old(self).wf(),
            final(self).stats() == (DecodeStats {
                decode_errors: sat_add_usize(old(self).stats().decode_errors, 1),
                ..old(self).stats()
            }),
            final(self).flags() == old(self).flags(),
            final(self).io() == old(self).io(),
            final(self).outbound() == old(self).outbound(),
            final(self).spec_chan_id() == old(self).spec_chan_id(),
            final(self).events() == old(self).events(),
    {
        self.stats.decode_errors = self.stats.decode_errors.saturating_add(1);
    }

    /// Count one frame over the limit (`size` observed, `max` allowed).
    pub fn record_frame_too_large(&mut self, size: usize, max: usize)
        ensures
            final(self).wf() == old(self).wf(),
            final(self).stats() == (DecodeStats {
                frame_too_large: sat_add_u64(old(self).stats().frame_too_large, 1),
                ..old(self).stats()
            }),
            final(self).flags() == old(self).flags(),
            final(self).io() == old(self).io(),
            final(self).outbound() == old(self).outbound(),
            final(self).spec_chan_id() == old(self).spec_chan_id(),
            final(self).events() == old(self).events().push(channel_event(old(self).spec_chan_id(),
                names::FRAME_TOO_LARGE, "max_frame", size as u64, "bytes", names::UNITMAP_FRAME_TOO_LARGE_V1,
                max as u64, 0)),
    {
        self.stats.frame_too_large = self.stats.frame_too_large.saturating_add(1);
        self.emit_event(names::FRAME_TOO_LARGE, "max_frame", size as u64, "bytes", names::UNITMAP_FRAME_TOO_LARGE_V1,
            max as u64, 0);
    }

    /// Count bytes copied into the receive cumulation.
    pub fn record_rx_cumulation_copy_bytes(&mut self, copied_bytes: usize)
        ensures
            final(self).wf() == old(self).wf(),
            final(self).stats() == (DecodeStats {
                cumulation_copy_bytes: sat_add_u64(old(self).stats().cumulation_copy_bytes, copied_bytes as int),
                ..old(self).stats()
            }),
            final(self).flags() == old(self).flags(),
            final(self).io() == old(self).io(),
            final(self).outbound() == old(self).outbound(),
            final(self).spec_chan_id() == old(self).spec_chan_id(),
            final(self).events() == old(self).events(),
    {
        if copied_bytes > 0 {
            self.stats.cumulation_copy_bytes = self.stats.cumulation_copy_bytes.saturating_add(copied_bytes as u64);
        }
    }

    /// Count coalescing copies of this read round.
    pub fn record_inbound_cumulation(&mut self, coalesce_count: usize, copied_bytes: usize)
        ensures
            final(self).wf() == old(self).wf(),
            final(self).stats() == (DecodeStats {
                coalesce_count: sat_add_u64(old(self).stats().coalesce_count, coalesce_count as int),
                copied_bytes: sat_add_u64(old(self).stats().copied_bytes, copied_bytes as int),
                ..old(self).stats()
            }),
            final(self).flags() == old(self).flags(),
            final(self).io() == old(self).io(),
            final(self).outbound() == old(self).outbound(),
            final(self).spec_chan_id() == old(self).spec_chan_id(),
            final(self).events() == old(self).events(),
    {
        if coalesce_count > 0 {
            self.stats.coalesce_count = self.stats.coalesce_count.saturating_add(coalesce_count as u64);
        }
        if copied_bytes > 0 {
            self.stats.copied_bytes = self.stats.copied_bytes.saturating_add(copied_bytes as u64);
        }
    }

    /// Take this round's statistics and reset them: `(decoded,
    /// decode_errors, frame_too_large, coalesce_count, copied_bytes,
    /// cumulation_copy_bytes, lease_tokens, lease_borrowed_bytes,
    /// materialize_bytes)`.
    pub fn take_decode_stats(&mut self) -> (r: (usize, usize, u64, u64, u64, u64, u64, u64, u64))
        ensures
            final(self).wf() == old(self).wf(),
            ({
                let s = old(self).stats();
                r == (s.decoded, s.decode_errors, s.frame_too_large, s.coalesce_count, s.copied_bytes,
                    s.cumulation_copy_bytes, s.lease_tokens, s.lease_borrowed_bytes, s.materialize_bytes)
            }),
            final(self).stats() == zero_stats(),
            final(self).flags() == old(self).flags(),
            final(self).io() == old(self).io(),
            final(self).outbound() == old(self).outbound(),
            final(self).spec_chan_id() == old(self).spec_chan_id(),
            final(self).events() == old(self).events(),
    {
        let s = self.stats;
        self.stats = DecodeStats {
            decoded: 0,
            decode_errors: 0,
            frame_too_large: 0,
            coalesce_count: 0,
            copied_bytes: 0,
            cumulation_copy_bytes: 0,
            lease_tokens: 0,
            lease_borrowed_bytes: 0,
            materialize_bytes: 0,
        };
        (s.decoded, s.decode_errors, s.frame_too_large, s.coalesce_count, s.copied_bytes,
            s.cumulation_copy_bytes, s.lease_tokens, s.lease_borrowed_bytes, s.materialize_bytes)
    }
}

} // verus!
