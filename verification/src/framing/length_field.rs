//! Length-field prefixed framer: `[len][payload]`.
use vstd::prelude::*;
use super::cumulation::Cumulation;
use super::segment::peek_prefix;
use super::codec::{ByteOrder, read_len_field, field_value, valid_field_len};
use super::{FrameSpec, StreamDecodeError, sat_add};

verus! {

/// One decode step of the length-field framer over the logical stream `s`.
pub open spec fn length_field_decode_spec(
    max_len: usize,
    field_len: usize,
    order: ByteOrder,
    s: Seq<u8>,
) -> Result<Option<FrameSpec>, StreamDecodeError> {
    let live = s.len() as int;
    if live < field_len {
        Ok(None)
    } else if !valid_field_len(field_len as int) {
        Err(StreamDecodeError::CorruptedLengthField)
    } else {
        let payload = field_value(order, s.take(field_len as int)) as usize;
        if payload > max_len {
            Err(StreamDecodeError::FrameTooLong)
        } else {
            let total = sat_add(field_len as int, payload as int);
            if live < total {
                Ok(None)
            } else {
                Ok(Some(FrameSpec { consumed: total as usize, msg_start: field_len, msg_end: total as usize }))
            }
        }
    }
}

/// Length-field prefixed framer; the emitted message is the payload only.
#[derive(Debug, Clone, Copy)]
pub struct LengthFieldPrefixFramer {
    pub max_len: usize,
    pub field_len: usize,
    pub order: ByteOrder,
}

impl LengthFieldPrefixFramer {
    /// `None` unless `field_len` is one of 1, 2, 3, 4, 8.
    pub fn new(max_len: usize, field_len: usize, order: ByteOrder) -> (r: Option<Self>)
        ensures
            r.is_some() <==> valid_field_len(field_len as int),
            r.is_some() ==> r.unwrap().max_len == (if max_len > 0 { max_len } else { 1 })
                && r.unwrap().field_len == field_len && r.unwrap().order == order,
    {
        if !(field_len == 1 || field_len == 2 || field_len == 3 || field_len == 4 || field_len == 8) {
            return None;
        }
        Some(LengthFieldPrefixFramer { max_len: if max_len > 0 { max_len } else { 1 }, field_len, order })
    }

    /// Decode at most one frame from the front of the cumulation.
    pub fn decode(&mut self, cumulation: &Cumulation) -> (r: Result<Option<FrameSpec>, StreamDecodeError>)
        requires
            cumulation.wf(),
        ensures
            *final(self) == *old(self),
            r == length_field_decode_spec(old(self).max_len, old(self).field_len, old(self).order, cumulation@),
    {
        let live = cumulation.len();
        if live < self.field_len {
            return Ok(None);
        }
        let hdr = peek_prefix(cumulation, self.field_len);
        if hdr.len() < self.field_len {
            return Ok(None);
        }
        let len = match read_len_field(self.order, hdr.as_slice()) {
            Some(v) => v,
            None => { return Err(StreamDecodeError::CorruptedLengthField); },
        };
        let payload = len as usize;
        if payload > self.max_len {
            return Err(StreamDecodeError::FrameTooLong);
        }
        let total = self.field_len.saturating_add(payload);
        if live < total {
            return Ok(None);
        }
        Ok(Some(FrameSpec { consumed: total, msg_start: self.field_len, msg_end: total }))
    }
}

} // verus!
