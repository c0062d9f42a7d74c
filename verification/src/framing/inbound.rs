//! Per-connection inbound state: cumulation, framer and decoded messages.
use std::collections::VecDeque;
use vstd::prelude::*;
use crate::uci::KernelError;
use super::cumulation::Cumulation;
use super::codec::ByteOrder;
use super::delimiter::{DelimiterFramer, delim_decode_spec, delim_text};
use super::length_field::{LengthFieldPrefixFramer, length_field_decode_spec};
use super::line::{LineFramer, line_decode_spec};
use super::varint32::{Varint32Framer, varint32_frame_decode_spec};
use super::profile::DelimiterSpec;
use super::segment::ScanState;
use super::kmp::lemma_first_occ_props;
use super::{FrameSpec, StreamDecodeError, lemma_find_props};

verus! {

/// One of the built-in stream framers.
#[derive(Debug, Clone)]
pub enum StreamFramer {
    Line(LineFramer),
    Delimiter(DelimiterFramer),
    LengthField(LengthFieldPrefixFramer),
    Varint32(Varint32Framer),
}

/// One decode step of a framer: the result and the framer's next state.
pub open spec fn stream_decode_spec(f: StreamFramer, s: Seq<u8>) -> (Result<Option<FrameSpec>, StreamDecodeError>, StreamFramer) {
    match f {
        StreamFramer::Line(lf) => {
            let step = line_decode_spec(lf.include_delimiter, lf.max_len, lf.scan.scanned, lf.scan.carry, s);
            (step.0, StreamFramer::Line(LineFramer { scan: ScanState { scanned: step.1, carry: step.2 }, ..lf }))
        },
        StreamFramer::Delimiter(df) => {
            let step = delim_decode_spec(df.include_delimiter, df.max_len, df.delim@, df.scan.scanned, df.scan.carry, s);
            (step.0, StreamFramer::Delimiter(DelimiterFramer { scan: ScanState { scanned: step.1, carry: step.2 }, ..df }))
        },
        StreamFramer::LengthField(lf) => (length_field_decode_spec(lf.max_len, lf.field_len, lf.order, s), f),
        StreamFramer::Varint32(vf) => (varint32_frame_decode_spec(vf.max_len, s), f),
    }
}

/// A frame found in `s` lies within it: `msg_start <= msg_end <= consumed <= |s|`.
pub open spec fn frame_within(fs: FrameSpec, s: Seq<u8>) -> bool {
    fs.msg_start <= fs.msg_end <= fs.consumed <= s.len()
}

impl StreamFramer {
    pub open spec fn wf(&self) -> bool {
        match self {
            StreamFramer::Delimiter(df) => df.wf(),
            _ => true,
        }
    }

    /// Decode at most one frame from the front of the cumulation.
    pub fn decode(&mut self, cumulation: &Cumulation) -> (r: Result<Option<FrameSpec>, StreamDecodeError>)
        requires
            old(self).wf(),
            cumulation.wf(),
        ensures
            final(self).wf(),
            (r, *final(self)) == stream_decode_spec(*old(self), cumulation@),
    {
        match self {
            StreamFramer::Line(f) => {
                let r = f.decode(cumulation);
                proof {
                    assert(f.scan == ScanState { scanned: f.scan.scanned, carry: f.scan.carry });
                }
                r
            },
            StreamFramer::Delimiter(f) => f.decode(cumulation),
            StreamFramer::LengthField(f) => f.decode(cumulation),
            StreamFramer::Varint32(f) => f.decode(cumulation),
        }
    }
}

/// Every frame a framer reports lies within the stream it scanned.
pub proof fn lemma_frame_within(f: StreamFramer, s: Seq<u8>)
    requires
        f.wf(),
    ensures
        stream_decode_spec(f, s).0 matches Ok(Some(fs)) ==> frame_within(fs, s),
{
    match f {
        StreamFramer::Line(lf) => {
            let live = s.len() as int;
            let lim = super::line::line_scan_limit(lf.include_delimiter, lf.max_len);
            let hi = if live < lim { live } else { lim };
            lemma_find_props(s, lf.scan.scanned as int, hi, 10u8);
        },
        StreamFramer::Delimiter(df) => {
            let pat = df.delim@;
            let live = s.len() as int;
            let lim = super::sat_add(df.max_len as int, pat.len() as int);
            let hi = if live < lim { live } else { lim };
            let t = delim_text(pat, df.scan.scanned as int, df.scan.carry as int, s, hi);
            lemma_first_occ_props(t, pat, 1);
        },
        _ => {},
    }
}

/// Up to `fuel` decode rounds over `s`: each round decodes one frame and
/// removes its consumed bytes; empty messages are dropped. Yields whether no
/// error occurred, the framer's state, the remaining bytes, and the messages.
pub open spec fn decode_rounds(f: StreamFramer, s: Seq<u8>, msgs: Seq<Seq<u8>>, fuel: nat)
    -> (bool, StreamFramer, Seq<u8>, Seq<Seq<u8>>)
    decreases fuel,
{
    if fuel == 0 || s.len() == 0 {
        (true, f, s, msgs)
    } else {
        let (r, f2) = stream_decode_spec(f, s);
        match r {
            Err(_) => (false, f2, s, msgs),
            Ok(None) => (true, f2, s, msgs),
            Ok(Some(fs)) => {
                let m = s.subrange(fs.msg_start as int, fs.msg_end as int);
                decode_rounds(f2, s.skip(fs.consumed as int), if m.len() > 0 { msgs.push(m) } else { msgs }, (fuel - 1) as nat)
            },
        }
    }
}

/// Maximum frames decoded per `append_stream_bytes` call.
pub const MAX_DECODE_PER_CALL: usize = 32;

/// Stats for a single `append_stream_bytes` decode batch.
#[derive(Debug, Clone, Copy, PartialEq, Eq, Default)]
pub struct DecodeBatchStats {
    pub produced: usize,
    pub coalesce_count: usize,
    pub copied_bytes: usize,
    /// Bytes copied when appending into the cumulation tail.
    pub cumulation_copy_bytes: usize,
}

/// Per-connection inbound (read-path) state.
#[derive(Debug)]
pub struct InboundState {
    cumulation: Cumulation,
    framer: StreamFramer,
    ready: VecDeque<Vec<u8>>,
}

/// The message views of a queue of owned messages.
pub open spec fn msg_views(q: Seq<Vec<u8>>) -> Seq<Seq<u8>> {
    q.map_values(|v: Vec<u8>| v@)
}

impl InboundState {
    pub closed spec fn cumulation_view(&self) -> Seq<u8> {
        self.cumulation@
    }

    pub closed spec fn framer_view(&self) -> StreamFramer {
        self.framer
    }

    pub closed spec fn ready_view(&self) -> Seq<Seq<u8>> {
        msg_views(self.ready@)
    }

    pub closed spec fn wf(&self) -> bool {
        &&& self.cumulation.wf()
        &&& self.framer.wf()
    }

    fn with_framer(max_frame: usize, framer: StreamFramer) -> (st: Self)
        requires
            framer.wf(),
        ensures
            st.wf(),
            st.cumulation_view() == Seq::<u8>::empty(),
            st.framer_view() == framer,
            st.ready_view() == Seq::<Seq<u8>>::empty(),
    {
        let cap = if max_frame < 65536 { max_frame } else { 65536 };
        let st = InboundState { cumulation: Cumulation::with_capacity(cap), framer, ready: VecDeque::new() };
        proof { assert(st.ready_view() =~= Seq::<Seq<u8>>::empty()); }
        st
    }

    /// Line framing that keeps the delimiter in the message.
    pub fn new_line(max_frame: usize) -> (st: Self)
        ensures
            st.wf(),
            st.cumulation_view() == Seq::<u8>::empty(),
            st.ready_view() == Seq::<Seq<u8>>::empty(),
            st.framer_view() matches StreamFramer::Line(f) && f.include_delimiter
                && f.max_len == (if max_frame > 0 { max_frame } else { 1 })
                && f.scan.scanned == 0 && f.scan.carry.is_none(),
    {
        let f = LineFramer::new(if max_frame > 0 { max_frame } else { 1 }, true);
        Self::with_framer(max_frame, StreamFramer::Line(f))
    }

    pub fn new_delimiter(max_frame: usize, delimiter: DelimiterSpec, include_delimiter: bool) -> (st: Self)
        ensures
            st.wf(),
            st.cumulation_view() == Seq::<u8>::empty(),
            st.ready_view() == Seq::<Seq<u8>>::empty(),
            st.framer_view() matches StreamFramer::Delimiter(f) && f.include_delimiter == include_delimiter
                && f.max_len == (if max_frame > 0 { max_frame } else { 1 }) && f.delim == delimiter
                && f.scan.scanned == 0 && f.scan.carry == 0,
    {
        let f = DelimiterFramer::new(if max_frame > 0 { max_frame } else { 1 }, delimiter, include_delimiter);
        Self::with_framer(max_frame, StreamFramer::Delimiter(f))
    }

    /// `None` unless `field_len` is one of 1, 2, 3, 4, 8.
    pub fn new_length_field(max_frame: usize, field_len: usize, order: ByteOrder) -> (r: Option<Self>)
        ensures
            r.is_some() <==> super::codec::valid_field_len(field_len as int),
            r matches Some(st) ==> st.wf() && st.cumulation_view() == Seq::<u8>::empty()
                && st.ready_view() == Seq::<Seq<u8>>::empty()
                && st.framer_view() == StreamFramer::LengthField(LengthFieldPrefixFramer {
                    max_len: if max_frame > 0 { max_frame } else { 1 }, field_len, order }),
    {
        let f = LengthFieldPrefixFramer::new(if max_frame > 0 { max_frame } else { 1 }, field_len, order)?;
        Some(Self::with_framer(max_frame, StreamFramer::LengthField(f)))
    }

    pub fn new_varint32(max_frame: usize) -> (st: Self)
        ensures
            st.wf(),
            st.cumulation_view() == Seq::<u8>::empty(),
            st.ready_view() == Seq::<Seq<u8>>::empty(),
            st.framer_view() == StreamFramer::Varint32(Varint32Framer { max_len: if max_frame > 0 { max_frame } else { 1 } }),
    {
        let f = Varint32Framer::new(if max_frame > 0 { max_frame } else { 1 });
        Self::with_framer(max_frame, StreamFramer::Varint32(f))
    }

    pub fn has_ready(&self) -> (b: bool)
        ensures
            b == (self.ready_view().len() > 0),
    {
        self.ready.len() > 0
    }

    /// Take the oldest decoded message.
    pub fn pop_ready(&mut self) -> (r: Option<Vec<u8>>)
        ensures
            final(self).cumulation_view() == old(self).cumulation_view(),
            final(self).framer_view() == old(self).framer_view(),
            final(self).wf() == old(self).wf(),
            old(self).ready_view().len() == 0 ==> r.is_none() && final(self).ready_view() == old(self).ready_view(),
            old(self).ready_view().len() > 0 ==> r.is_some() && r.unwrap()@ == old(self).ready_view()[0]
                && final(self).ready_view() == old(self).ready_view().drop_first(),
    {
        let r = self.ready.pop_front();
        proof {
            if r.is_some() {
                assert(self.ready_view() =~= old(self).ready_view().drop_first());
            }
        }
        r
    }

    /// Current buffered stream bytes.
    pub fn cumulation_len(&self) -> (n: usize)
        requires
            self.wf(),
        ensures
            n as int == self.cumulation_view().len(),
    {
        self.cumulation.len()
    }

    /// Queue a datagram payload directly (empty payloads are dropped).
    pub fn push_datagram(&mut self, msg: Vec<u8>)
        ensures
            final(self).cumulation_view() == old(self).cumulation_view(),
            final(self).framer_view() == old(self).framer_view(),
            final(self).wf() == old(self).wf(),
            final(self).ready_view() == (if msg@.len() > 0 { old(self).ready_view().push(msg@) } else { old(self).ready_view() }),
    {
        if msg.len() > 0 {
            let ghost m = msg@;
            self.ready.push_back(msg);
            proof { assert(self.ready_view() =~= old(self).ready_view().push(m)); }
        }
    }

    /// Append newly read stream bytes and decode up to `MAX_DECODE_PER_CALL`
    /// messages into the ready queue.
    pub fn append_stream_bytes(&mut self, bytes: &[u8]) -> (r: Result<DecodeBatchStats, KernelError>)
        requires
            old(self).wf(),
            old(self).cumulation_view().len() + bytes@.len() <= usize::MAX,
        ensures
            final(self).wf(),
            ({
                let (ok, f2, s2, msgs) = decode_rounds(
                    old(self).framer_view(),
                    old(self).cumulation_view() + bytes@,
                    Seq::empty(),
                    MAX_DECODE_PER_CALL as nat,
                );
                &&& final(self).framer_view() == f2
                &&& final(self).cumulation_view() == s2
                &&& final(self).ready_view() == old(self).ready_view() + msgs
                &&& r.is_ok() == ok
                &&& r matches Ok(stats) ==> stats.produced == msgs.len() && stats.cumulation_copy_bytes == bytes@.len()
                &&& r matches Err(e) ==> e == KernelError::Invalid
            }),
    {
        self.cumulation.push_bytes(bytes);
        let mut stats = DecodeBatchStats {
            produced: 0,
            coalesce_count: 0,
            copied_bytes: 0,
            cumulation_copy_bytes: bytes.len(),
        };
        let ghost start_ready = old(self).ready_view();
        let ghost target = decode_rounds(old(self).framer_view(), old(self).cumulation_view() + bytes@, Seq::empty(), MAX_DECODE_PER_CALL as nat);
        let ghost mut msgs: Seq<Seq<u8>> = Seq::empty();
        let mut n: usize = 0;
        while n < MAX_DECODE_PER_CALL
            invariant_except_break
                self.wf(),
                n <= MAX_DECODE_PER_CALL,
                target == decode_rounds(old(self).framer_view(), old(self).cumulation_view() + bytes@, Seq::empty(), MAX_DECODE_PER_CALL as nat),
                start_ready == old(self).ready_view(),
                decode_rounds(self.framer, self.cumulation@, msgs, (MAX_DECODE_PER_CALL - n) as nat) == target,
                self.ready_view() == start_ready + msgs,
                stats.produced == msgs.len(),
                stats.produced <= n,
                stats.cumulation_copy_bytes == bytes@.len(),
            ensures
                self.wf(),
                target.0,
                self.framer == target.1,
                self.cumulation@ == target.2,
                self.ready_view() == start_ready + target.3,
                stats.produced == target.3.len(),
                stats.cumulation_copy_bytes == bytes@.len(),
            decreases MAX_DECODE_PER_CALL - n,
        {
            if self.cumulation.is_empty() {
                break;
            }
            let ghost s0 = self.cumulation@;
            let ghost f0 = self.framer;
            proof { lemma_frame_within(f0, s0); }
            let res = self.framer.decode(&self.cumulation);
            let spec = match res {
                Err(_) => {
                    proof {
                        assert(decode_rounds(f0, s0, msgs, (MAX_DECODE_PER_CALL - n) as nat) == (false, self.framer, s0, msgs));
                    }
                    return Err(KernelError::Invalid);
                },
                Ok(None) => {
                    break;
                },
                Ok(Some(spec)) => spec,
            };
            let (m, ts) = if spec.msg_start == 0 {
                self.cumulation.take_message_with_stats(spec.consumed, spec.msg_end)
            } else {
                self.cumulation.take_range_with_stats(spec.consumed, spec.msg_start, spec.msg_end)
            };
            if ts.coalesced {
                stats.coalesce_count = stats.coalesce_count.saturating_add(1);
                stats.copied_bytes = stats.copied_bytes.saturating_add(ts.copied_bytes);
            }
            if m.len() > 0 {
                let ghost mv = m@;
                let ghost q0 = self.ready@;
                self.ready.push_back(m);
                proof {
                    assert(msg_views(self.ready@) =~= msg_views(q0).push(mv));
                }
                stats.produced = stats.produced + 1;
                proof {
                    msgs = msgs.push(mv);
                    assert(self.ready_view() =~= start_ready + msgs);
                }
            }
            n = n + 1;
        }
        Ok(stats)
    }
}

} // verus!
