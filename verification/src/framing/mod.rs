//! Stream framing: segmented cumulation and the built-in framers.
use vstd::prelude::*;

pub mod cumulation;
pub mod segment;
pub mod line;
pub mod kmp;
pub mod profile;
pub mod delimiter;
pub mod codec;
pub mod length_field;
pub mod varint32;
pub mod inbound;

verus! {

/// Decoded frame boundaries.
///
/// - `consumed`: bytes to remove from the cumulation.
/// - `msg_start..msg_end`: message payload slice within the consumed range.
#[derive(Debug, Clone, Copy, PartialEq, Eq)]
pub struct FrameSpec {
    pub consumed: usize,
    pub msg_start: usize,
    pub msg_end: usize,
}

/// Framing errors.
#[derive(Debug, Clone, Copy, PartialEq, Eq)]
pub enum StreamDecodeError {
    FrameTooLong,
    InvalidDelimiter,
    CorruptedLengthField,
}

/// `a + b`, saturated at `usize::MAX`.
pub open spec fn sat_add(a: int, b: int) -> int {
    if a + b > usize::MAX { usize::MAX as int } else { a + b }
}

/// The first index `k` in `[lo, hi)` with `s[k] == b`.
pub open spec fn find_byte_from(s: Seq<u8>, lo: int, hi: int, b: u8) -> Option<int>
    decreases hi - lo,
{
    if lo >= hi {
        None
    } else if s[lo] == b {
        Some(lo)
    } else {
        find_byte_from(s, lo + 1, hi, b)
    }
}

/// No byte in `[lo, hi)` equals `b`.
pub open spec fn no_byte_in(s: Seq<u8>, lo: int, hi: int, b: u8) -> bool {
    forall|k: int| lo <= k < hi ==> #[trigger] s[k] != b
}

pub proof fn lemma_find_none(s: Seq<u8>, lo: int, hi: int, b: u8)
    requires
        no_byte_in(s, lo, hi, b),
    ensures
        find_byte_from(s, lo, hi, b) is None,
    decreases hi - lo,
{
    if lo < hi {
        lemma_find_none(s, lo + 1, hi, b);
    }
}

pub proof fn lemma_find_some(s: Seq<u8>, lo: int, hi: int, b: u8, k: int)
    requires
        lo <= k < hi,
        s[k] == b,
        no_byte_in(s, lo, k, b),
    ensures
        find_byte_from(s, lo, hi, b) == Some(k),
    decreases k - lo,
{
    if lo < k {
        lemma_find_some(s, lo + 1, hi, b, k);
    }
}

/// Whatever `find_byte_from` returns is the first match in range.
pub proof fn lemma_find_props(s: Seq<u8>, lo: int, hi: int, b: u8)
    ensures
        match find_byte_from(s, lo, hi, b) {
            Some(k) => lo <= k < hi && s[k] == b && no_byte_in(s, lo, k, b),
            None => no_byte_in(s, lo, hi, b),
        },
    decreases hi - lo,
{
    if lo < hi {
        lemma_find_props(s, lo + 1, hi, b);
    }
}

/// Position of the first `needle` in `bytes`.
pub fn find_byte(bytes: &[u8], needle: u8) -> (r: Option<usize>)
    ensures
        match r {
            Some(i) => i < bytes@.len() && bytes@[i as int] == needle && no_byte_in(bytes@, 0, i as int, needle),
            None => no_byte_in(bytes@, 0, bytes@.len() as int, needle),
        },
{
    let mut i: usize = 0;
    while i < bytes.len()
        invariant
            i <= bytes@.len(),
            no_byte_in(bytes@, 0, i as int, needle),
        decreases bytes@.len() - i,
    {
        if bytes[i] == needle {
            return Some(i);
        }
        i = i + 1;
    }
    None
}

} // verus!
