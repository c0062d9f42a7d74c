//! Inbound stream framing handler: accumulates stream bytes, runs the
//! profile's framer, and accounts decode results on the channel.
use vstd::prelude::*;
use crate::uci::KernelError;
use crate::evidence::EvidenceSink;
use crate::io::IoOps;
use crate::framing::inbound::{InboundState, StreamFramer, decode_rounds, MAX_DECODE_PER_CALL};
use crate::framing::profile::{FrameDecoderProfile, max_frame_hint_spec};
use crate::framing::codec::valid_field_len;
use crate::framing::length_field::LengthFieldPrefixFramer;
use crate::framing::varint32::Varint32Framer;
use crate::driver::channel_state::{ChannelState, DecodeStats, sat_add_u64, sat_add_usize, channel_event};
use crate::names;

verus! {

/// The framing state a profile starts from (HTTP/1 requests are not framed
/// here; a line framer stands in). A length-field profile with an
/// unsupported width falls back to line framing.
pub open spec fn fresh_inbound(profile: FrameDecoderProfile, st: InboundState) -> bool {
    &&& st.wf()
    &&& st.cumulation_view() == Seq::<u8>::empty()
    &&& st.ready_view() == Seq::<Seq<u8>>::empty()
    &&& match profile {
        FrameDecoderProfile::Line { max_frame } => fresh_line(st.framer_view(), max_frame),
        FrameDecoderProfile::Delimiter { max_frame, delimiter, include_delimiter } =>
            st.framer_view() matches StreamFramer::Delimiter(f) && f.include_delimiter == include_delimiter
                && f.max_len == (if max_frame > 0 { max_frame } else { 1 }) && f.delim == delimiter
                && f.scan.scanned == 0 && f.scan.carry == 0,
        FrameDecoderProfile::LengthField { max_frame, field_len, order } =>
            if valid_field_len(field_len as int) {
                st.framer_view() == StreamFramer::LengthField(LengthFieldPrefixFramer {
                    max_len: if max_frame > 0 { max_frame } else { 1 },
                    field_len: field_len as usize,
                    order,
                })
            } else {
                fresh_line(st.framer_view(), max_frame)
            },
        FrameDecoderProfile::Varint32 { max_frame } =>
            st.framer_view() == StreamFramer::Varint32(Varint32Framer { max_len: if max_frame > 0 { max_frame } else { 1 } }),
        FrameDecoderProfile::Http1 { max_request_bytes, .. } => fresh_line(st.framer_view(), max_request_bytes),
    }
}

/// A fresh line framer that keeps the delimiter in the message.
pub open spec fn fresh_line(f: StreamFramer, max_frame: usize) -> bool {
    f matches StreamFramer::Line(l) && l.include_delimiter
        && l.max_len == (if max_frame > 0 { max_frame } else { 1 })
        && l.scan.scanned == 0 && l.scan.carry.is_none()
}

fn inbound_for(profile: FrameDecoderProfile) -> (st: InboundState)
    ensures
        fresh_inbound(profile, st),
{
    match profile {
        FrameDecoderProfile::Line { max_frame } => InboundState::new_line(max_frame),
        FrameDecoderProfile::Delimiter { max_frame, delimiter, include_delimiter } =>
            InboundState::new_delimiter(max_frame, delimiter, include_delimiter),
        FrameDecoderProfile::LengthField { max_frame, field_len, order } => {
            match InboundState::new_length_field(max_frame, field_len as usize, order) {
                Some(st) => st,
                None => InboundState::new_line(max_frame),
            }
        },
        FrameDecoderProfile::Varint32 { max_frame } => InboundState::new_varint32(max_frame),
        FrameDecoderProfile::Http1 { max_request_bytes, .. } => InboundState::new_line(max_request_bytes),
    }
}

/// Stream framing handler of the default pipeline.
#[derive(Debug)]
pub struct StreamFrameDecoderHandler {
    profile: FrameDecoderProfile,
    inbound: InboundState,
}

impl StreamFrameDecoderHandler {
    pub closed spec fn spec_profile(&self) -> FrameDecoderProfile {
        self.profile
    }

    /// The framing state.
    pub closed spec fn inbound(&self) -> InboundState {
        self.inbound
    }

    pub closed spec fn wf(&self) -> bool {
        self.inbound.wf()
    }

    pub fn new(profile: FrameDecoderProfile) -> (h: Self)
        ensures
            h.wf(),
            h.spec_profile() == profile,
            fresh_inbound(profile, h.inbound()),
    {
        StreamFrameDecoderHandler { profile, inbound: inbound_for(profile) }
    }

    /// Feed stream bytes to the framer. Decoded messages wait in the ready
    /// queue (see `pop_ready`); coalescing copies are accounted on the
    /// channel. On a framing error the channel counts a decode error (and a
    /// frame over the limit when the cumulation already exceeds the
    /// profile's frame hint) and the error is returned for the pipeline. The
    /// HTTP/1 profile is not framed here and answers `Invalid`.
    pub fn on_stream_bytes<Ev: EvidenceSink, Io: IoOps>(&mut self, state: &mut ChannelState<Ev, Io>, bytes: &[u8])
        -> (r: Result<(), KernelError>)
        requires
            old(self).wf(),
            old(self).inbound().cumulation_view().len() + bytes@.len() <= usize::MAX,
        ensures
            final(self).wf(),
            final(self).spec_profile() == old(self).spec_profile(),
            final(state).flags() == old(state).flags(),
            final(state).io() == old(state).io(),
            final(state).outbound() == old(state).outbound(),
            final(state).spec_chan_id() == old(state).spec_chan_id(),
            old(self).spec_profile() is Http1 ==> {
                &&& r == Err::<(), KernelError>(KernelError::Invalid)
                &&& final(self).inbound() == old(self).inbound()
                &&& final(state).stats() == old(state).stats()
                &&& final(state).events() == old(state).events()
            },
            !(old(self).spec_profile() is Http1) ==> {
                let (ok, f2, s2, msgs) = decode_rounds(
                    old(self).inbound().framer_view(),
                    old(self).inbound().cumulation_view() + bytes@,
                    Seq::empty(),
                    MAX_DECODE_PER_CALL as nat,
                );
                &&& final(self).inbound().framer_view() == f2
                &&& final(self).inbound().cumulation_view() == s2
                &&& final(self).inbound().ready_view() == old(self).inbound().ready_view() + msgs
                &&& r.is_ok() == ok
                &&& r matches Err(e) ==> e == KernelError::Invalid
                &&& !ok ==> final(state).stats() == (DecodeStats {
                    decode_errors: sat_add_usize(old(state).stats().decode_errors, 1),
                    frame_too_large: if s2.len() > max_frame_hint_spec(old(self).spec_profile()) {
                        sat_add_u64(old(state).stats().frame_too_large, 1)
                    } else {
                        old(state).stats().frame_too_large
                    },
                    ..old(state).stats()
                })
                &&& final(state).events() == (if !ok && s2.len() > max_frame_hint_spec(old(self).spec_profile()) {
                    old(state).events().push(channel_event(old(state).spec_chan_id(), names::FRAME_TOO_LARGE,
                        "max_frame", s2.len() as u64, "bytes", names::UNITMAP_FRAME_TOO_LARGE_V1,
                        max_frame_hint_spec(old(self).spec_profile()) as u64, 0))
                } else {
                    old(state).events()
                })
                &&& ok ==> final(state).stats().decoded == old(state).stats().decoded
                    && final(state).stats().decode_errors == old(state).stats().decode_errors
                    && final(state).stats().frame_too_large == old(state).stats().frame_too_large
            },
    {
        if let FrameDecoderProfile::Http1 { .. } = self.profile {
            return Err(KernelError::Invalid);
        }
        match self.inbound.append_stream_bytes(bytes) {
            Ok(batch) => {
                if batch.coalesce_count > 0 || batch.copied_bytes > 0 {
                    state.record_inbound_cumulation(batch.coalesce_count, batch.copied_bytes);
                }
                Ok(())
            },
            Err(e) => {
                state.record_decode_error();
                let size = self.inbound.cumulation_len();
                let max = self.profile.max_frame_hint();
                if size > max {
                    state.record_frame_too_large(size, max);
                }
                Err(e)
            },
        }
    }

    /// Bytes buffered and not yet framed.
    pub fn cumulation_len(&self) -> (n: usize)
        requires
            self.wf(),
        ensures
            n as int == self.inbound().cumulation_view().len(),
    {
        self.inbound.cumulation_len()
    }

    /// Take the oldest decoded message.
    pub fn pop_ready(&mut self) -> (r: Option<Vec<u8>>)
        ensures
            final(self).spec_profile() == old(self).spec_profile(),
            final(self).wf() == old(self).wf(),
            final(self).inbound().cumulation_view() == old(self).inbound().cumulation_view(),
            final(self).inbound().framer_view() == old(self).inbound().framer_view(),
            old(self).inbound().ready_view().len() == 0 ==> r.is_none()
                && final(self).inbound().ready_view() == old(self).inbound().ready_view(),
            old(self).inbound().ready_view().len() > 0 ==> r.is_some()
                && r.unwrap()@ == old(self).inbound().ready_view()[0]
                && final(self).inbound().ready_view() == old(self).inbound().ready_view().drop_first(),
    {
        self.inbound.pop_ready()
    }

    /// The connection went inactive: drop the cumulation and queued messages.
    pub fn channel_inactive(&mut self)
        ensures
            final(self).wf(),
            final(self).spec_profile() == old(self).spec_profile(),
            fresh_inbound(old(self).spec_profile(), final(self).inbound()),
    {
        self.inbound = inbound_for(self.profile);
    }
}

} // verus!
