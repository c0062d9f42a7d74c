//! Framing profiles and their bounded delimiter specification.
use vstd::prelude::*;
use vstd::slice::slice_subrange;
use crate::framing::codec::ByteOrder;

verus! {

/// Maximum supported delimiter length.
pub const MAX_DELIMITER_LEN: usize = 16;

/// A bounded, non-empty delimiter (1 to `MAX_DELIMITER_LEN` bytes).
#[derive(Debug, Clone, Copy, PartialEq, Eq)]
pub struct DelimiterSpec {
    bytes: [u8; 16],
    len: u8,
}

impl View for DelimiterSpec {
    type V = Seq<u8>;

    closed spec fn view(&self) -> Seq<u8> {
        self.bytes@.take(self.len as int)
    }
}

impl DelimiterSpec {
    #[verifier::type_invariant]
    closed spec fn inv(self) -> bool {
        1 <= self.len <= 16
    }

    /// Build a delimiter spec; `None` when the delimiter is empty or longer
    /// than `MAX_DELIMITER_LEN`.
    pub fn new(delim: &[u8]) -> (r: Option<Self>)
        ensures
            r.is_some() <==> (1 <= delim@.len() <= MAX_DELIMITER_LEN),
            r.is_some() ==> r.unwrap()@ == delim@,
    {
        if delim.len() == 0 || delim.len() > MAX_DELIMITER_LEN {
            return None;
        }
        let mut bytes = [0u8; 16];
        let mut i: usize = 0;
        while i < delim.len()
            invariant
                i <= delim@.len() <= 16,
                bytes@.len() == 16,
                bytes@.take(i as int) == delim@.take(i as int),
            decreases delim@.len() - i,
        {
            bytes[i] = delim[i];
            i = i + 1;
            proof { assert(bytes@.take(i as int) =~= delim@.take(i as int)); }
        }
        proof { assert(delim@.take(i as int) =~= delim@); }
        Some(DelimiterSpec { bytes, len: delim.len() as u8 })
    }

    /// Delimiter length in bytes.
    pub fn len(self) -> (n: usize)
        ensures
            n as int == self@.len(),
            1 <= n <= MAX_DELIMITER_LEN,
    {
        proof { use_type_invariant(&self); }
        self.len as usize
    }

    /// The delimiter bytes.
    pub fn as_slice(&self) -> (s: &[u8])
        ensures
            s@ == self@,
    {
        proof { use_type_invariant(self); }
        let s = slice_subrange(self.bytes.as_slice(), 0, self.len as usize);
        proof { assert(s@ =~= self@); }
        s
    }
}

/// `n`, raised to at least 1.
pub open spec fn at_least_one(n: usize) -> usize {
    if n > 1 { n } else { 1 }
}

fn max1(n: usize) -> (r: usize)
    ensures
        r == at_least_one(n),
{
    if n > 1 { n } else { 1 }
}

/// A length field width the framers support: 1, 2, 3, 4 or 8 bytes.
pub open spec fn supported_field_len(n: int) -> bool {
    n == 1 || n == 2 || n == 3 || n == 4 || n == 8
}

/// Framing profile of the built-in stream decoder.
#[derive(Debug, Clone, Copy, PartialEq, Eq)]
pub enum FrameDecoderProfile {
    /// Line-based stream framing.
    Line { max_frame: usize },
    /// Delimiter-based stream framing.
    Delimiter { max_frame: usize, delimiter: DelimiterSpec, include_delimiter: bool },
    /// Length-field prefixed stream framing (the payload is emitted without
    /// its length field).
    LengthField { max_frame: usize, field_len: u8, order: ByteOrder },
    /// Varint32 length-prefixed stream framing.
    Varint32 { max_frame: usize },
    /// HTTP/1 management-plane framing of complete requests.
    Http1 { max_request_bytes: usize, max_head_bytes: usize, max_headers: usize },
}

/// The most bytes one frame can occupy on the wire under a profile,
/// saturated at `usize::MAX`.
pub open spec fn max_frame_hint_spec(p: FrameDecoderProfile) -> usize {
    match p {
        FrameDecoderProfile::Line { max_frame } => max_frame,
        FrameDecoderProfile::Delimiter { max_frame, .. } => max_frame,
        FrameDecoderProfile::LengthField { max_frame, field_len, .. } =>
            if max_frame + field_len > usize::MAX { usize::MAX } else { (max_frame + field_len) as usize },
        FrameDecoderProfile::Varint32 { max_frame } =>
            if max_frame + 5 > usize::MAX { usize::MAX } else { (max_frame + 5) as usize },
        FrameDecoderProfile::Http1 { max_request_bytes, .. } => max_request_bytes,
    }
}

impl FrameDecoderProfile {
    pub fn line(max_frame: usize) -> (p: Self)
        ensures
            p == (FrameDecoderProfile::Line { max_frame: at_least_one(max_frame) }),
    {
        FrameDecoderProfile::Line { max_frame: max1(max_frame) }
    }

    /// A delimiter profile; `None` when the delimiter is empty or longer than
    /// `MAX_DELIMITER_LEN`.
    pub fn delimiter(max_frame: usize, delimiter: &[u8], include_delimiter: bool) -> (r: Option<Self>)
        ensures
            r.is_some() <==> (1 <= delimiter@.len() <= MAX_DELIMITER_LEN),
            r matches Some(p) ==> p matches FrameDecoderProfile::Delimiter { max_frame: m, delimiter: d, include_delimiter: inc }
                && m == at_least_one(max_frame) && d@ == delimiter@ && inc == include_delimiter,
    {
        let spec = match DelimiterSpec::new(delimiter) {
            Some(s) => s,
            None => return None,
        };
        Some(FrameDecoderProfile::Delimiter { max_frame: max1(max_frame), delimiter: spec, include_delimiter })
    }

    /// An HTTP/1 profile whose head may take the whole request, with at most
    /// 64 headers.
    pub fn http1(max_request_bytes: usize) -> (p: Self)
        ensures
            p == Self::http1_spec(max_request_bytes, max_request_bytes, 64),
    {
        Self::http1_with_limits(max_request_bytes, max_request_bytes, 64)
    }

    /// Limits raised to at least 1, the head capped by the request.
    pub open spec fn http1_spec(max_request_bytes: usize, max_head_bytes: usize, max_headers: usize) -> Self {
        let req = at_least_one(max_request_bytes);
        let head = at_least_one(max_head_bytes);
        FrameDecoderProfile::Http1 {
            max_request_bytes: req,
            max_head_bytes: if head < req { head } else { req },
            max_headers: at_least_one(max_headers),
        }
    }

    /// An HTTP/1 profile with explicit head limits.
    pub fn http1_with_limits(max_request_bytes: usize, max_head_bytes: usize, max_headers: usize) -> (p: Self)
        ensures
            p == Self::http1_spec(max_request_bytes, max_head_bytes, max_headers),
    {
        let req = max1(max_request_bytes);
        let head0 = max1(max_head_bytes);
        let head = if head0 < req { head0 } else { req };
        FrameDecoderProfile::Http1 { max_request_bytes: req, max_head_bytes: head, max_headers: max1(max_headers) }
    }

    /// A length-field profile; `None` for an unsupported field width.
    pub fn length_field(max_frame: usize, field_len: usize, order: ByteOrder) -> (r: Option<Self>)
        ensures
            r.is_some() <==> supported_field_len(field_len as int),
            r.is_some() ==> r == Some(FrameDecoderProfile::LengthField {
                max_frame: at_least_one(max_frame),
                field_len: field_len as u8,
                order,
            }),
    {
        if !(field_len == 1 || field_len == 2 || field_len == 3 || field_len == 4 || field_len == 8) {
            return None;
        }
        Some(FrameDecoderProfile::LengthField { max_frame: max1(max_frame), field_len: field_len as u8, order })
    }

    pub fn varint32(max_frame: usize) -> (p: Self)
        ensures
            p == (FrameDecoderProfile::Varint32 { max_frame: at_least_one(max_frame) }),
    {
        FrameDecoderProfile::Varint32 { max_frame: max1(max_frame) }
    }

    pub fn max_frame_hint(self) -> (n: usize)
        ensures
            n == max_frame_hint_spec(self),
    {
        match self {
            FrameDecoderProfile::Line { max_frame } => max_frame,
            FrameDecoderProfile::Delimiter { max_frame, .. } => max_frame,
            FrameDecoderProfile::LengthField { max_frame, field_len, .. } => max_frame.saturating_add(field_len as usize),
            FrameDecoderProfile::Varint32 { max_frame } => max_frame.saturating_add(5),
            FrameDecoderProfile::Http1 { max_request_bytes, .. } => max_request_bytes,
        }
    }
}

/// Options for line-based framing.
#[derive(Debug, Clone, Copy, PartialEq, Eq)]
pub struct LineOptions {
    pub max_frame: usize,
}

impl LineOptions {
    pub fn new(max_frame: usize) -> (o: Self)
        ensures
            o == (LineOptions { max_frame: at_least_one(max_frame) }),
    {
        LineOptions { max_frame: max1(max_frame) }
    }
}

/// Options for delimiter-based framing.
#[derive(Debug, Clone, Copy, PartialEq, Eq)]
pub struct DelimiterOptions {
    pub max_frame: usize,
    pub delimiter: DelimiterSpec,
    pub include_delimiter: bool,
}

impl DelimiterOptions {
    pub fn new(max_frame: usize, delimiter: DelimiterSpec, include_delimiter: bool) -> (o: Self)
        ensures
            o == (DelimiterOptions { max_frame: at_least_one(max_frame), delimiter, include_delimiter }),
    {
        DelimiterOptions { max_frame: max1(max_frame), delimiter, include_delimiter }
    }
}

/// Options for HTTP/1 management-plane framing.
#[derive(Debug, Clone, Copy, PartialEq, Eq)]
pub struct Http1Options {
    pub max_request_bytes: usize,
    pub max_head_bytes: usize,
    pub max_headers: usize,
}

impl Http1Options {
    /// Limits raised to at least 1, the head capped by the request.
    pub fn with_limits(max_request_bytes: usize, max_head_bytes: usize, max_headers: usize) -> (o: Self)
        ensures
            ({
                let req = at_least_one(max_request_bytes);
                let head = at_least_one(max_head_bytes);
                o == (Http1Options {
                    max_request_bytes: req,
                    max_head_bytes: if head < req { head } else { req },
                    max_headers: at_least_one(max_headers),
                })
            }),
    {
        let req = max1(max_request_bytes);
        let head0 = max1(max_head_bytes);
        let head = if head0 < req { head0 } else { req };
        Http1Options { max_request_bytes: req, max_head_bytes: head, max_headers: max1(max_headers) }
    }
}

/// Options for length-field prefixed framing.
#[derive(Debug, Clone, Copy, PartialEq, Eq)]
pub struct LengthFieldOptions {
    pub max_frame: usize,
    pub field_len: usize,
    pub order: ByteOrder,
}

impl LengthFieldOptions {
    /// Options for a supported field width (1, 2, 3, 4 or 8 bytes), else `None`.
    pub fn new(max_frame: usize, field_len: usize, order: ByteOrder) -> (r: Option<Self>)
        ensures
            r.is_some() <==> supported_field_len(field_len as int),
            r.is_some() ==> r == Some(LengthFieldOptions { max_frame: at_least_one(max_frame), field_len, order }),
    {
        if !(field_len == 1 || field_len == 2 || field_len == 3 || field_len == 4 || field_len == 8) {
            return None;
        }
        Some(LengthFieldOptions { max_frame: max1(max_frame), field_len, order })
    }
}

/// Options for varint32 length-prefixed framing.
#[derive(Debug, Clone, Copy, PartialEq, Eq)]
pub struct Varint32Options {
    pub max_frame: usize,
}

impl Varint32Options {
    pub fn new(max_frame: usize) -> (o: Self)
        ensures
            o == (Varint32Options { max_frame: at_least_one(max_frame) }),
    {
        Varint32Options { max_frame: max1(max_frame) }
    }
}

} // verus!
