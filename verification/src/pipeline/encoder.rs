//! Outbound framing encoder: the mirror image of the built-in decoders.
//!
//! Line and delimiter framing append the delimiter unless the frame already
//! ends with it; length-field and varint32 framing prepend a length header;
//! HTTP/1 frames pass through.
use vstd::prelude::*;
use crate::uci::KernelError;
use crate::framing::{FrameSpec, no_byte_in, lemma_find_some};
use crate::framing::line::line_decode_spec;
use crate::framing::delimiter::{delim_decode_spec, delim_text};
use crate::framing::kmp::{occ_at, lemma_first_occ_some};
use crate::framing::codec::{ByteOrder, write_len_field, varint32_encode, field_value, valid_field_len, pow256,
    varint_encode, lemma_varint32_roundtrip};
use crate::framing::length_field::length_field_decode_spec;
use crate::framing::varint32::varint32_frame_decode_spec;
use crate::framing::profile::{DelimiterSpec, FrameDecoderProfile};
use crate::framing::cumulation::{concat, lemma_concat_push_front};
use crate::outbound::frame::{OutboundFrame, frame_bytes, append_suffix_spec, OUTBOUND_SEG_MAX};

verus! {

/// The payload length the encoders announce: the frame's byte count,
/// saturated at `usize::MAX`.
pub open spec fn payload_len_spec(segs: Seq<Seq<u8>>) -> int {
    if frame_bytes(segs).len() > usize::MAX { usize::MAX as int } else { frame_bytes(segs).len() as int }
}

/// Built-in outbound framing encoder for a decoder profile.
#[derive(Debug, Clone, Copy)]
pub struct StreamFrameEncoderHandler {
    pub profile: FrameDecoderProfile,
}

impl StreamFrameEncoderHandler {
    pub fn new(profile: FrameDecoderProfile) -> (h: Self)
        ensures
            h.profile == profile,
    {
        StreamFrameEncoderHandler { profile }
    }

    /// Terminate a frame with `\n` unless it already ends with one.
    pub fn encode_line(msg: OutboundFrame) -> (f: OutboundFrame)
        requires
            msg.wf(),
        ensures
            f.wf(),
            f@ == append_suffix_spec(msg@, seq![10u8]),
    {
        let nl: [u8; 1] = [10u8];
        proof { assert(nl@ =~= seq![10u8]); }
        if msg.ends_with(nl.as_slice()) {
            msg
        } else {
            msg.append_suffix(nl.as_slice())
        }
    }

    /// Terminate a frame with the delimiter unless it already ends with it.
    pub fn encode_delimiter(msg: OutboundFrame, delim: DelimiterSpec) -> (f: OutboundFrame)
        requires
            msg.wf(),
        ensures
            f.wf(),
            f@ == append_suffix_spec(msg@, delim@),
    {
        let d = delim.as_slice();
        if d.len() == 0 {
            return msg;
        }
        if msg.ends_with(d) {
            msg
        } else {
            msg.append_suffix(d)
        }
    }

    /// Prepend a `field_len`-byte length header in `order`. `Invalid` for an
    /// unsupported width, a payload that does not fit the field, or a frame
    /// with no segment slot left.
    pub fn encode_length_field(msg: OutboundFrame, field_len: usize, order: ByteOrder) -> (r: Result<OutboundFrame, KernelError>)
        requires
            msg.wf(),
        ensures
            r.is_ok() <==> (valid_field_len(field_len as int) && payload_len_spec(msg@) < pow256(field_len as nat)
                && msg@.len() < OUTBOUND_SEG_MAX),
            r matches Err(e) ==> e == KernelError::Invalid,
            r matches Ok(f) ==> {
                &&& f.wf()
                &&& f@.len() == msg@.len() + 1
                &&& f@.skip(1) == msg@
                &&& f@[0].len() == field_len
                &&& field_value(order, f@[0]) == payload_len_spec(msg@)
            },
    {
        let payload_len = msg.len();
        let hdr = match write_len_field(order, field_len, payload_len) {
            Some(h) => h,
            None => return Err(KernelError::Invalid),
        };
        match msg.try_prepend_inline(hdr.as_slice()) {
            Some(f) => {
                proof { assert((seq![hdr@] + msg@).skip(1) =~= msg@); }
                Ok(f)
            },
            None => Err(KernelError::Invalid),
        }
    }

    /// Prepend a varint32 length header. `Invalid` for a payload over
    /// `u32::MAX` bytes or a frame with no segment slot left.
    pub fn encode_varint32(msg: OutboundFrame) -> (r: Result<OutboundFrame, KernelError>)
        requires
            msg.wf(),
        ensures
            r.is_ok() <==> (payload_len_spec(msg@) <= u32::MAX && msg@.len() < OUTBOUND_SEG_MAX),
            r matches Err(e) ==> e == KernelError::Invalid,
            r matches Ok(f) ==> {
                &&& f.wf()
                &&& f@ == seq![varint_encode(payload_len_spec(msg@) as nat)] + msg@
            },
    {
        let payload_len = msg.len();
        if payload_len > 0xFFFF_FFFFusize {
            return Err(KernelError::Invalid);
        }
        let hdr = varint32_encode(payload_len as u32);
        proof {
            lemma_varint32_roundtrip(payload_len as u32, Seq::empty());
        }
        match msg.try_prepend_inline(hdr.as_slice()) {
            Some(f) => Ok(f),
            None => Err(KernelError::Invalid),
        }
    }

    /// Frame an outbound message for this handler's profile.
    pub fn encode(&self, msg: OutboundFrame) -> (r: Result<OutboundFrame, KernelError>)
        requires
            msg.wf(),
        ensures
            r matches Ok(f) ==> f.wf(),
            match self.profile {
                FrameDecoderProfile::Line { .. } => r matches Ok(f) && f@ == append_suffix_spec(msg@, seq![10u8]),
                FrameDecoderProfile::Delimiter { delimiter, .. } => r matches Ok(f)
                    && f@ == append_suffix_spec(msg@, delimiter@),
                FrameDecoderProfile::LengthField { field_len, order, .. } => {
                    &&& r.is_ok() <==> (valid_field_len(field_len as int)
                        && payload_len_spec(msg@) < pow256(field_len as nat) && msg@.len() < OUTBOUND_SEG_MAX)
                    &&& r matches Err(e) ==> e == KernelError::Invalid
                    &&& r matches Ok(f) ==> f@.skip(1) == msg@ && f@[0].len() == field_len
                        && field_value(order, f@[0]) == payload_len_spec(msg@)
                },
                FrameDecoderProfile::Varint32 { .. } => {
                    &&& r.is_ok() <==> (payload_len_spec(msg@) <= u32::MAX && msg@.len() < OUTBOUND_SEG_MAX)
                    &&& r matches Err(e) ==> e == KernelError::Invalid
                    &&& r matches Ok(f) ==> f@ == seq![varint_encode(payload_len_spec(msg@) as nat)] + msg@
                },
                FrameDecoderProfile::Http1 { .. } => r matches Ok(f) && f@ == msg@,
            },
    {
        match self.profile {
            FrameDecoderProfile::Line { .. } => Ok(Self::encode_line(msg)),
            FrameDecoderProfile::Delimiter { delimiter, .. } => Ok(Self::encode_delimiter(msg, delimiter)),
            FrameDecoderProfile::LengthField { field_len, order, .. } => Self::encode_length_field(msg, field_len as usize, order),
            FrameDecoderProfile::Varint32 { .. } => Self::encode_varint32(msg),
            FrameDecoderProfile::Http1 { .. } => Ok(msg),
        }
    }
}

/// Symmetric length-field framing: a stream that starts with an encoded
/// frame whose payload fits the decoder's limit decodes to exactly that
/// payload, whatever follows it.
pub proof fn lemma_length_field_roundtrip(
    max_len: usize,
    field_len: usize,
    order: ByteOrder,
    hdr: Seq<u8>,
    payload: Seq<u8>,
    rest: Seq<u8>,
)
    requires
        valid_field_len(field_len as int),
        hdr.len() == field_len,
        field_value(order, hdr) == payload.len(),
        payload.len() <= max_len,
        field_len + payload.len() <= usize::MAX,
    ensures
        ({
            let s = hdr + payload + rest;
            &&& length_field_decode_spec(max_len, field_len, order, s)
                == Ok::<Option<FrameSpec>, crate::framing::StreamDecodeError>(Some(FrameSpec {
                    consumed: (field_len + payload.len()) as usize,
                    msg_start: field_len,
                    msg_end: (field_len + payload.len()) as usize,
                }))
            &&& s.subrange(field_len as int, field_len + payload.len()) == payload
        }),
{
    let s = hdr + payload + rest;
    assert(s.take(field_len as int) =~= hdr);
    assert(s.subrange(field_len as int, field_len + payload.len()) =~= payload);
}

/// Symmetric varint32 framing: a stream that starts with a varint32 header
/// and its payload (within the decoder's limit) decodes to exactly that
/// payload, whatever follows it.
pub proof fn lemma_varint32_frame_roundtrip(max_len: usize, payload: Seq<u8>, rest: Seq<u8>)
    requires
        payload.len() <= u32::MAX,
        payload.len() <= max_len,
        payload.len() + 5 <= usize::MAX,
    ensures
        ({
            let hdr = varint_encode(payload.len() as nat);
            let s = hdr + payload + rest;
            &&& varint32_frame_decode_spec(max_len, s)
                == Ok::<Option<FrameSpec>, crate::framing::StreamDecodeError>(Some(FrameSpec {
                    consumed: (hdr.len() + payload.len()) as usize,
                    msg_start: hdr.len() as usize,
                    msg_end: (hdr.len() + payload.len()) as usize,
                }))
            &&& s.subrange(hdr.len() as int, (hdr.len() + payload.len()) as int) == payload
        }),
{
    let v = payload.len() as u32;
    let hdr = varint_encode(v as nat);
    let s = hdr + payload + rest;
    lemma_varint32_roundtrip(v, payload + rest);
    let live = s.len() as int;
    let copied: int = if live < 5 { live } else { 5 };
    assert(hdr + (payload + rest) =~= s);
    if hdr.len() + (payload + rest).len() >= 5 {
        let tail = (payload + rest).take(5 - hdr.len());
        lemma_varint32_roundtrip(v, tail);
        assert(s.take(copied) =~= hdr + tail);
    } else {
        assert(s.take(copied) =~= hdr + (payload + rest));
    }
    assert(s.subrange(hdr.len() as int, (hdr.len() + payload.len()) as int) =~= payload);
}



/// Symmetric line framing: a payload with no newline, followed by `\n`,
/// decodes from a fresh scan to exactly the payload (delimiter excluded, the
/// payload not ending in CR) or the payload and its `\n` (delimiter
/// included), whatever follows it, when that fits the decoder's limit.
pub proof fn lemma_line_roundtrip(include_delimiter: bool, max_len: usize, payload: Seq<u8>, rest: Seq<u8>)
    requires
        no_byte_in(payload, 0, payload.len() as int, 10u8),
        !include_delimiter && payload.len() > 0 ==> payload.last() != 13u8,
        payload.len() + (if include_delimiter { 1int } else { 0int }) <= max_len,
        payload.len() + 1 <= usize::MAX,
    ensures
        ({
            let s = payload + seq![10u8] + rest;
            let end = payload.len() + (if include_delimiter { 1int } else { 0int });
            &&& line_decode_spec(include_delimiter, max_len, 0, None, s) == (
                Ok::<Option<FrameSpec>, crate::framing::StreamDecodeError>(Some(FrameSpec {
                    consumed: (payload.len() + 1) as usize,
                    msg_start: 0,
                    msg_end: end as usize,
                })),
                0usize,
                None::<u8>,
            )
            &&& s.subrange(0, end) == (if include_delimiter { payload.push(10u8) } else { payload })
        }),
{
    let s = payload + seq![10u8] + rest;
    let nl = payload.len() as int;
    assert(s[nl] == 10u8);
    assert forall|k: int| 0 <= k < nl implies #[trigger] s[k] != 10u8 by {
        assert(s[k] == payload[k]);
    }
    let lim = crate::framing::line::line_scan_limit(include_delimiter, max_len);
    let live = s.len() as int;
    let hi = if live < lim { live } else { lim };
    lemma_find_some(s, 0, hi, 10u8, nl);
    if nl > 0 {
        assert(s[nl - 1] == payload.last());
    }
    assert(s.subrange(0, nl) =~= payload);
    assert(s.subrange(0, nl + 1) =~= payload.push(10u8));
}


/// Symmetric delimiter framing: a payload followed by the delimiter, where
/// the delimiter first occurs at that end, decodes from a fresh scan to
/// exactly the payload (delimiter excluded) or the payload and delimiter
/// (included), whatever follows it, when that fits the decoder's limit.
pub proof fn lemma_delimiter_roundtrip(
    include_delimiter: bool,
    max_len: usize,
    pat: Seq<u8>,
    payload: Seq<u8>,
    rest: Seq<u8>,
)
    requires
        pat.len() >= 1,
        forall|f: int| 1 <= f < payload.len() + pat.len() ==> !#[trigger] occ_at(payload + pat, pat, f),
        payload.len() + (if include_delimiter { pat.len() as int } else { 0int }) <= max_len,
        payload.len() + pat.len() <= usize::MAX,
    ensures
        ({
            let s = payload + pat + rest;
            let end = payload.len() + (if include_delimiter { pat.len() as int } else { 0int });
            &&& delim_decode_spec(include_delimiter, max_len, pat, 0, 0, s) == (
                Ok::<Option<FrameSpec>, crate::framing::StreamDecodeError>(Some(FrameSpec {
                    consumed: (payload.len() + pat.len()) as usize,
                    msg_start: 0,
                    msg_end: end as usize,
                })),
                0usize,
                0usize,
            )
            &&& s.subrange(0, end) == (if include_delimiter { payload + pat } else { payload })
        }),
{
    let s = payload + pat + rest;
    let u = payload + pat;
    let n = u.len() as int;
    let m = pat.len() as int;
    let live = s.len() as int;
    let lim = crate::framing::sat_add(max_len as int, m);
    let hi = if live < lim { live } else { lim };
    assert(hi >= n);
    let t = delim_text(pat, 0, 0, s, hi);
    assert(t =~= s.take(hi));
    assert forall|f: int| 0 <= f <= n implies #[trigger] t.take(f) == u.take(f) by {
        assert(t.take(f) =~= u.take(f));
    }
    assert(t.take(n) =~= u);
    assert(u.subrange(n - m, n) =~= pat.take(m));
    assert(occ_at(t, pat, n));
    assert forall|f: int| 1 <= f < n implies !#[trigger] occ_at(t, pat, f) by {
        assert(t.take(f) == u.take(f));
        assert(!occ_at(u, pat, f));
    }
    lemma_first_occ_some(t, pat, 1, n);
    assert(s.subrange(0, n - m) =~= payload);
    assert(s.subrange(0, n) =~= u);
}

} // verus!
