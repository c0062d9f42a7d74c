//! Segmented line framer (`\n`, optionally `\r\n`).
use vstd::prelude::*;
use super::cumulation::{Cumulation, concat, lemma_concat_segment, lemma_concat_take_next};
use super::segment::{ScanState, SegmentCursor};
use super::{FrameSpec, StreamDecodeError, find_byte, find_byte_from, no_byte_in, sat_add,
    lemma_find_none, lemma_find_some};

verus! {

/// Scan window of the line framer: `max_len` consumed bytes when the
/// delimiter is included, else `max_len` plus room for a CRLF.
pub open spec fn line_scan_limit(include_delimiter: bool, max_len: usize) -> int {
    if include_delimiter { max_len as int } else { sat_add(max_len as int, 2) }
}

/// Message end for a newline at `nl` whose preceding byte is `before`.
pub open spec fn line_msg_end(include_delimiter: bool, nl: int, before: Option<u8>) -> int {
    if include_delimiter {
        nl + 1
    } else if before == Some(13u8) {
        if nl >= 1 { nl - 1 } else { 0 }
    } else {
        nl
    }
}

/// One decode step of the line framer over the logical stream `s`, from scan
/// state `(scanned, carry)`: the result and the next scan state.
pub open spec fn line_decode_spec(
    include_delimiter: bool,
    max_len: usize,
    scanned: usize,
    carry: Option<u8>,
    s: Seq<u8>,
) -> (Result<Option<FrameSpec>, StreamDecodeError>, usize, Option<u8>) {
    let live = s.len() as int;
    let lim = line_scan_limit(include_delimiter, max_len);
    if live == 0 {
        (Ok(None), scanned, carry)
    } else if scanned >= lim {
        (Err(StreamDecodeError::FrameTooLong), 0, None)
    } else {
        let hi = if live < lim { live } else { lim };
        match find_byte_from(s, scanned as int, hi, 10u8) {
            Some(nl) => {
                let before = if nl > scanned { Some(s[nl - 1]) } else { carry };
                let end = line_msg_end(include_delimiter, nl, before);
                if end > max_len {
                    (Err(StreamDecodeError::FrameTooLong), 0, None)
                } else {
                    (Ok(Some(FrameSpec { consumed: (nl + 1) as usize, msg_start: 0, msg_end: end as usize })), 0, None)
                }
            },
            None => {
                let new_scanned: int = if hi > scanned { hi } else { scanned as int };
                let new_carry = if hi > scanned { Some(s[hi - 1]) } else { carry };
                if live > lim {
                    (Err(StreamDecodeError::FrameTooLong), 0, None)
                } else {
                    (Ok(None), new_scanned as usize, new_carry)
                }
            },
        }
    }
}

/// A scan state is consistent with the stream `s` when the scanned prefix
/// holds no newline and the carry is its last byte.
pub open spec fn line_scan_consistent(scanned: usize, carry: Option<u8>, s: Seq<u8>) -> bool {
    &&& scanned <= s.len()
    &&& no_byte_in(s, 0, scanned as int, 10u8)
    &&& carry == (if scanned > 0 { Some(s[scanned - 1]) } else { None })
}

/// Segmented line framer: searches for `\n` across cumulation segments.
#[derive(Debug, Clone)]
pub struct LineFramer {
    pub include_delimiter: bool,
    pub max_len: usize,
    pub scan: ScanState<Option<u8>>,
}

impl LineFramer {
    pub fn new(max_len: usize, include_delimiter: bool) -> (f: Self)
        ensures
            f.include_delimiter == include_delimiter,
            f.max_len == (if max_len > 0 { max_len } else { 1 }),
            f.scan.scanned == 0,
            f.scan.carry.is_none(),
    {
        LineFramer {
            include_delimiter,
            max_len: if max_len > 0 { max_len } else { 1 },
            scan: ScanState::new(None),
        }
    }

    /// The incremental scan state.
    pub fn scan(&self) -> (s: ScanState<Option<u8>>)
        ensures
            s == self.scan,
    {
        self.scan
    }

    fn reset_scan(&mut self)
        ensures
            final(self).scan.scanned == 0,
            final(self).scan.carry.is_none(),
            final(self).include_delimiter == old(self).include_delimiter,
            final(self).max_len == old(self).max_len,
    {
        self.scan.reset(None);
    }

    /// Decode at most one frame from the front of the cumulation.
    pub fn decode(&mut self, cumulation: &Cumulation) -> (r: Result<Option<FrameSpec>, StreamDecodeError>)
        requires
            cumulation.wf(),
        ensures
            final(self).include_delimiter == old(self).include_delimiter,
            final(self).max_len == old(self).max_len,
            (r, final(self).scan.scanned, final(self).scan.carry) == line_decode_spec(
                old(self).include_delimiter,
                old(self).max_len,
                old(self).scan.scanned,
                old(self).scan.carry,
                cumulation@,
            ),
    {
        let ghost s = cumulation@;
        let ghost sc = self.scan.scanned as int;
        let ghost carry0 = self.scan.carry;
        proof { cumulation.lemma_len_bounded(); }
        let live = cumulation.len();
        if live == 0 {
            return Ok(None);
        }
        let scan_limit = if self.include_delimiter {
            self.max_len
        } else {
            self.max_len.saturating_add(2)
        };
        if self.scan.scanned() >= scan_limit {
            self.reset_scan();
            return Err(StreamDecodeError::FrameTooLong);
        }
        let ghost lim = scan_limit as int;
        assert(lim == line_scan_limit(self.include_delimiter, self.max_len));
        let ghost hi: int = if (live as int) < lim { live as int } else { lim };

        let mut cursor = SegmentCursor::new(self.scan.scanned(), scan_limit);
        let mut prev_last = self.scan.carry();
        let ghost segs = cumulation.segments();
        let count = cumulation.segment_count();
        let mut i: usize = 0;
        let mut off: usize = 0;
        while i < count
            invariant
                cumulation.wf(),
                s == cumulation@,
                s.len() <= usize::MAX,
                segs == cumulation.segments(),
                s == concat(segs),
                count == segs.len(),
                i <= count,
                live as int == s.len(),
                0 <= sc < lim,
                lim == scan_limit,
                lim == line_scan_limit(old(self).include_delimiter, old(self).max_len),
                hi == (if (live as int) < lim { live as int } else { lim }),
                off as int == concat(segs.take(i as int)).len(),
                cursor.scan_limit == scan_limit,
                cursor.skip as int == (if sc > off { sc - off } else { 0 }),
                cursor.pos as int == (if off < lim { if sc > off { sc } else { off as int } } else { if sc > lim { sc } else { lim } }),
                cursor.pos <= sc || cursor.pos <= hi,
                no_byte_in(s, sc, cursor.pos as int, 10u8),
                prev_last == (if cursor.pos > sc { Some(s[cursor.pos - 1]) } else { carry0 }),
                self.include_delimiter == old(self).include_delimiter,
                self.max_len == old(self).max_len,
                self.scan == old(self).scan,
                sc == old(self).scan.scanned,
                carry0 == old(self).scan.carry,
            decreases count - i,
        {
            proof {
                lemma_concat_segment(segs, i as int);
                lemma_concat_take_next(segs, i as int);
            }
            let seg = cumulation.segment(i);
            let ghost old_pos = cursor.pos as int;
            let next = cursor.next(seg);
            match next {
                None => {},
                Some(ss) => {
                    proof {
                        assert(old_pos == off + (if sc > off { sc - off } else { 0 }));
                        assert forall|k: int| 0 <= k < ss.bytes@.len() implies #[trigger] ss.bytes@[k] == s[ss.base + k] by {
                            let skip: int = if sc > off { sc - off } else { 0 };
                            assert(ss.bytes@[k] == seg@[skip + k]);
                            assert(s[off + (skip + k)] == segs[i as int][skip + k]);
                        }
                    }
                    match find_byte(ss.bytes, 10u8) {
                        Some(k) => {
                            let nl = ss.base + k;
                            let before = if k > 0 { Some(ss.bytes[k - 1]) } else { prev_last };
                            let has_crlf = match before { Some(b) => b == 13u8, None => false };
                            let end = if self.include_delimiter {
                                nl + 1
                            } else if has_crlf {
                                nl.saturating_sub(1)
                            } else {
                                nl
                            };
                            proof {
                                assert(old_pos == ss.base);
                                assert(prev_last == (if ss.base > sc { Some(s[ss.base - 1]) } else { carry0 }));
                                assert forall|j: int| sc <= j < nl implies #[trigger] s[j] != 10u8 by {
                                    if j >= ss.base {
                                        assert(s[j] == ss.bytes@[j - ss.base]);
                                    }
                                }
                                lemma_find_some(s, sc, hi, 10u8, nl as int);
                                if k > 0 {
                                    assert(ss.bytes@[k - 1] == s[nl - 1]);
                                }
                                assert(before == (if nl > sc { Some(s[nl - 1]) } else { carry0 }));
                                assert(end as int == line_msg_end(self.include_delimiter, nl as int, before));
                            }
                            if end > self.max_len {
                                self.reset_scan();
                                return Err(StreamDecodeError::FrameTooLong);
                            }
                            self.reset_scan();
                            return Ok(Some(FrameSpec { consumed: nl + 1, msg_start: 0, msg_end: end }));
                        },
                        None => {
                            proof {
                                assert forall|j: int| sc <= j < cursor.pos implies #[trigger] s[j] != 10u8 by {
                                    if j >= ss.base {
                                        assert(s[j] == ss.bytes@[j - ss.base]);
                                    }
                                }
                                assert(ss.bytes@[ss.bytes@.len() - 1] == s[cursor.pos - 1]);
                            }
                            prev_last = Some(ss.bytes[ss.bytes.len() - 1]);
                        },
                    }
                },
            }
            off = off + seg.len();
            i = i + 1;
        }
        proof {
            assert(segs.take(i as int) =~= segs);
            lemma_find_none(s, sc, hi, 10u8);
        }
        let new_scanned = cursor.scanned();
        self.scan.update(new_scanned, prev_last);
        if live > scan_limit {
            self.reset_scan();
            return Err(StreamDecodeError::FrameTooLong);
        }
        Ok(None)
    }
}

/// Resuming from a consistent scan state decodes exactly what a fresh framer
/// decodes from the same bytes: incremental scanning never changes the result.
pub proof fn lemma_line_resume_matches_fresh(
    include_delimiter: bool,
    max_len: usize,
    scanned: usize,
    carry: Option<u8>,
    s: Seq<u8>,
)
    requires
        line_scan_consistent(scanned, carry, s),
        scanned < line_scan_limit(include_delimiter, max_len),
        s.len() <= usize::MAX,
    ensures
        line_decode_spec(include_delimiter, max_len, scanned, carry, s).0
            == line_decode_spec(include_delimiter, max_len, 0, None, s).0,
{
    let live = s.len() as int;
    let lim = line_scan_limit(include_delimiter, max_len);
    if live > 0 && (scanned as int) < lim {
        let hi = if live < lim { live } else { lim };
        super::lemma_find_props(s, scanned as int, hi, 10u8);
        super::lemma_find_props(s, 0, hi, 10u8);
        match find_byte_from(s, scanned as int, hi, 10u8) {
            Some(nl) => {
                assert(no_byte_in(s, 0, nl, 10u8));
                lemma_find_some(s, 0, hi, 10u8, nl);
            },
            None => {
                assert(no_byte_in(s, 0, hi, 10u8));
                lemma_find_none(s, 0, hi, 10u8);
            },
        }
    }
}

} // verus!
