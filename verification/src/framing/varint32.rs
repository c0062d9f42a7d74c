//! Varint32 length-prefixed framer: `[varint32 len][payload]`.
use vstd::prelude::*;
use super::cumulation::Cumulation;
use super::segment::peek_prefix;
use super::codec::{varint32_decode, varint32_decode_spec};
use super::{FrameSpec, StreamDecodeError, sat_add};

verus! {

/// One decode step of the varint32 framer over the logical stream `s`.
pub open spec fn varint32_frame_decode_spec(max_len: usize, s: Seq<u8>) -> Result<Option<FrameSpec>, StreamDecodeError> {
    let live = s.len() as int;
    let copied: int = if live < 5 { live } else { 5 };
    if live == 0 {
        Ok(None)
    } else {
        match varint32_decode_spec(s.take(copied)) {
            None => if copied < 5 { Ok(None) } else { Err(StreamDecodeError::CorruptedLengthField) },
            Some((len, prefix)) => {
                let payload = len as usize;
                if payload > max_len {
                    Err(StreamDecodeError::FrameTooLong)
                } else {
                    let total = sat_add(prefix as int, payload as int);
                    if live < total {
                        Ok(None)
                    } else {
                        Ok(Some(FrameSpec { consumed: total as usize, msg_start: prefix, msg_end: total as usize }))
                    }
                }
            },
        }
    }
}

/// Varint32 length-prefixed framer; the emitted message is the payload only.
#[derive(Debug, Clone, Copy)]
pub struct Varint32Framer {
    pub max_len: usize,
}

impl Varint32Framer {
    pub fn new(max_len: usize) -> (f: Self)
        ensures
            f.max_len == (if max_len > 0 { max_len } else { 1 }),
    {
        Varint32Framer { max_len: if max_len > 0 { max_len } else { 1 } }
    }

    /// Decode at most one frame from the front of the cumulation.
    pub fn decode(&mut self, cumulation: &Cumulation) -> (r: Result<Option<FrameSpec>, StreamDecodeError>)
        requires
            cumulation.wf(),
        ensures
            *final(self) == *old(self),
            r == varint32_frame_decode_spec(old(self).max_len, cumulation@),
    {
        let live = cumulation.len();
        if live == 0 {
            return Ok(None);
        }
        let hdr = peek_prefix(cumulation, 5);
        let copied = hdr.len();
        let (len, prefix) = match varint32_decode(hdr.as_slice()) {
            Some(v) => v,
            None => {
                if copied < 5 {
                    return Ok(None);
                }
                return Err(StreamDecodeError::CorruptedLengthField);
            },
        };
        let payload = len as usize;
        if payload > self.max_len {
            return Err(StreamDecodeError::FrameTooLong);
        }
        let total = prefix.saturating_add(payload);
        if live < total {
            return Ok(None);
        }
        Ok(Some(FrameSpec { consumed: total, msg_start: prefix, msg_end: total }))
    }
}

} // verus!
