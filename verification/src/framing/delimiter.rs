//! Delimiter-based segmented framer (KMP across segment boundaries).
use vstd::prelude::*;
use super::cumulation::{Cumulation, concat, lemma_concat_segment, lemma_concat_take_next};
use super::segment::{ScanState, SegmentCursor};
use super::kmp::{build_lps, kmp_advance, lps_table_ok, longest_prefix_suffix, first_occ_end,
    occ_at, ends_with_prefix, lemma_first_occ_some, lemma_first_occ_none, lemma_lps_of_prefix,
    lemma_push_step, lemma_lps_props};
use super::profile::DelimiterSpec;
use super::{FrameSpec, StreamDecodeError, find_byte, no_byte_in, sat_add};

verus! {

/// The text the matcher runs over: the carried partial match, then the
/// unscanned window `s[scanned..hi]`.
pub open spec fn delim_text(pat: Seq<u8>, scanned: int, carry: int, s: Seq<u8>, hi: int) -> Seq<u8> {
    let j = if carry < pat.len() { carry } else { pat.len() as int };
    pat.take(j) + (if hi > scanned { s.subrange(scanned, hi) } else { Seq::empty() })
}

/// One decode step of the delimiter framer over the logical stream `s`, from
/// scan state `(scanned, carry)`: the result and the next scan state.
pub open spec fn delim_decode_spec(
    include_delimiter: bool,
    max_len: usize,
    pat: Seq<u8>,
    scanned: usize,
    carry: usize,
    s: Seq<u8>,
) -> (Result<Option<FrameSpec>, StreamDecodeError>, usize, usize) {
    let m = pat.len() as int;
    let live = s.len() as int;
    if m == 0 {
        (Err(StreamDecodeError::InvalidDelimiter), 0, 0)
    } else if live == 0 {
        (Ok(None), scanned, carry)
    } else {
        let lim = sat_add(max_len as int, m);
        if scanned > lim {
            (Err(StreamDecodeError::FrameTooLong), 0, 0)
        } else {
            let hi = if live < lim { live } else { lim };
            let j = if carry < m { carry as int } else { m };
            let t = delim_text(pat, scanned as int, carry as int, s, hi);
            match first_occ_end(t, pat, 1) {
                Some(e) => {
                    let end = scanned + e - j;
                    let start = if end >= m { end - m } else { 0 };
                    let msg_end = if include_delimiter { end } else { start };
                    if msg_end > max_len {
                        (Err(StreamDecodeError::FrameTooLong), 0, 0)
                    } else {
                        (Ok(Some(FrameSpec { consumed: end as usize, msg_start: 0, msg_end: msg_end as usize })), 0, 0)
                    }
                },
                None => {
                    if live > lim {
                        (Err(StreamDecodeError::FrameTooLong), 0, 0)
                    } else {
                        let new_scanned: int = if hi > scanned { hi } else { scanned as int };
                        (Ok(None), new_scanned as usize, longest_prefix_suffix(t, pat, m - 1) as usize)
                    }
                },
            }
        }
    }
}

/// Delimiter-based segmented framer.
#[derive(Debug, Clone)]
pub struct DelimiterFramer {
    pub include_delimiter: bool,
    pub max_len: usize,
    pub delim: DelimiterSpec,
    pub lps: Vec<u8>,
    pub scan: ScanState<usize>,
}

impl DelimiterFramer {
    /// The border table matches the delimiter and the carried match is partial.
    pub open spec fn wf(&self) -> bool {
        &&& 1 <= self.delim@.len() <= 16
        &&& self.lps@.len() == self.delim@.len()
        &&& lps_table_ok(self.delim@, self.lps@, self.delim@.len() as int)
        &&& self.scan.carry < self.delim@.len()
    }

    pub fn new(max_len: usize, delim: DelimiterSpec, include_delimiter: bool) -> (f: Self)
        ensures
            f.wf(),
            f.include_delimiter == include_delimiter,
            f.max_len == (if max_len > 0 { max_len } else { 1 }),
            f.delim == delim,
            f.scan.scanned == 0,
            f.scan.carry == 0,
    {
        let pat = delim.as_slice();
        let _ = delim.len();
        let lps = build_lps(pat);
        DelimiterFramer {
            include_delimiter,
            max_len: if max_len > 0 { max_len } else { 1 },
            delim,
            lps,
            scan: ScanState::new(0),
        }
    }

    /// The incremental scan state.
    pub fn scan(&self) -> (s: ScanState<usize>)
        ensures
            s == self.scan,
    {
        self.scan
    }

    fn reset_scan(&mut self)
        requires
            old(self).wf(),
        ensures
            final(self).wf(),
            final(self).scan.scanned == 0,
            final(self).scan.carry == 0,
            final(self).include_delimiter == old(self).include_delimiter,
            final(self).max_len == old(self).max_len,
            final(self).delim == old(self).delim,
            final(self).lps == old(self).lps,
    {
        self.scan.reset(0);
    }

    /// Decode at most one frame from the front of the cumulation.
    pub fn decode(&mut self, cumulation: &Cumulation) -> (r: Result<Option<FrameSpec>, StreamDecodeError>)
        requires
            old(self).wf(),
            cumulation.wf(),
        ensures
            final(self).wf(),
            final(self).include_delimiter == old(self).include_delimiter,
            final(self).max_len == old(self).max_len,
            final(self).delim == old(self).delim,
            final(self).lps == old(self).lps,
            (r, final(self).scan.scanned, final(self).scan.carry) == delim_decode_spec(
                old(self).include_delimiter,
                old(self).max_len,
                old(self).delim@,
                old(self).scan.scanned,
                old(self).scan.carry,
                cumulation@,
            ),
    {
        let ghost s = cumulation@;
        let ghost sc = self.scan.scanned as int;
        let ghost carry0 = self.scan.carry as int;
        let pat = self.delim.as_slice();
        if pat.len() == 0 {
            self.reset_scan();
            return Err(StreamDecodeError::InvalidDelimiter);
        }
        let pat_len = self.delim.len();
        proof { cumulation.lemma_len_bounded(); }
        let live = cumulation.len();
        if live == 0 {
            return Ok(None);
        }
        let scan_limit = self.max_len.saturating_add(pat_len);
        if self.scan.scanned() > scan_limit {
            self.reset_scan();
            return Err(StreamDecodeError::FrameTooLong);
        }
        let ghost lim = scan_limit as int;
        let ghost hi: int = if (live as int) < lim { live as int } else { lim };
        let ghost t = delim_text(pat@, sc, carry0, s, hi);
        let ghost m = pat_len as int;
        let ghost segs = cumulation.segments();
        let count = cumulation.segment_count();

        if pat_len == 1 {
            let needle = pat[0];
            let mut cursor = SegmentCursor::new(self.scan.scanned(), scan_limit);
            let mut i: usize = 0;
            let mut off: usize = 0;
            while i < count
                invariant
                    cumulation.wf(),
                    s == cumulation@,
                    s.len() <= usize::MAX,
                    segs == cumulation.segments(),
                    s == concat(segs),
                    count == segs.len(),
                    i <= count,
                    live as int == s.len(),
                    0 <= sc <= lim,
                    lim == scan_limit,
                    lim == sat_add(old(self).max_len as int, m),
                    m == 1,
                    m == pat@.len(),
                    pat@ == old(self).delim@,
                    needle == pat@[0],
                    hi == (if (live as int) < lim { live as int } else { lim }),
                    off as int == concat(segs.take(i as int)).len(),
                    cursor.scan_limit == scan_limit,
                    cursor.skip as int == (if sc > off { sc - off } else { 0 }),
                    cursor.pos as int == (if off < lim { if sc > off { sc } else { off as int } } else { if sc > lim { sc } else { lim } }),
                    cursor.pos <= sc || cursor.pos <= hi,
                    no_byte_in(s, sc, cursor.pos as int, needle),
                    self.wf(),
                    self.include_delimiter == old(self).include_delimiter,
                    self.max_len == old(self).max_len,
                    self.delim == old(self).delim,
                    self.lps == old(self).lps,
                    self.scan == old(self).scan,
                    sc == old(self).scan.scanned,
                    carry0 == old(self).scan.carry,
                    carry0 == 0,
                    t == delim_text(pat@, sc, carry0, s, hi),
                decreases count - i,
            {
                proof {
                    lemma_concat_segment(segs, i as int);
                    lemma_concat_take_next(segs, i as int);
                }
                let seg = cumulation.segment(i);
                let ghost old_pos = cursor.pos as int;
                let next = cursor.next(seg);
                match next {
                    None => {},
                    Some(ss) => {
                        proof {
                            assert(old_pos == off + (if sc > off { sc - off } else { 0 }));
                            assert forall|k: int| 0 <= k < ss.bytes@.len() implies #[trigger] ss.bytes@[k] == s[ss.base + k] by {
                                let skip: int = if sc > off { sc - off } else { 0 };
                                assert(ss.bytes@[k] == seg@[skip + k]);
                                assert(s[off + (skip + k)] == segs[i as int][skip + k]);
                            }
                        }
                        match find_byte(ss.bytes, needle) {
                            Some(k) => {
                                let end = ss.base + k + 1;
                                let start = end - 1;
                                let msg_end = if self.include_delimiter { end } else { start };
                                proof {
                                    let p = ss.base + k;
                                    let e = p - sc + 1;
                                    assert(s[p] == needle);
                                    assert(hi > sc);
                                    assert(t =~= s.subrange(sc, hi));
                                    assert forall|j: int| sc <= j < p implies #[trigger] s[j] != needle by {
                                        if j >= ss.base {
                                            assert(s[j] == ss.bytes@[j - ss.base]);
                                        }
                                    }
                                    assert forall|f: int| 1 <= f < e implies !#[trigger] occ_at(t, pat@, f) by {
                                        lemma_push_step(t.take(f - 1), pat@, t[f - 1], 1);
                                        assert(t.take(f) =~= t.take(f - 1).push(t[f - 1]));
                                        assert(t[f - 1] == s[sc + f - 1]);
                                    }
                                    assert(!occ_at(t, pat@, 0));
                                    lemma_push_step(t.take(e - 1), pat@, t[e - 1], 1);
                                    assert(t.take(e) =~= t.take(e - 1).push(t[e - 1]));
                                    assert(t[e - 1] == s[p]);
                                    super::kmp::lemma_empty_prefix(t.take(e - 1), pat@);
                                    lemma_first_occ_some(t, pat@, 1, e);
                                }
                                if msg_end > self.max_len {
                                    self.reset_scan();
                                    return Err(StreamDecodeError::FrameTooLong);
                                }
                                self.reset_scan();
                                return Ok(Some(FrameSpec { consumed: end, msg_start: 0, msg_end }));
                            },
                            None => {
                                proof {
                                    assert forall|j: int| sc <= j < cursor.pos implies #[trigger] s[j] != needle by {
                                        if j >= ss.base {
                                            assert(s[j] == ss.bytes@[j - ss.base]);
                                        }
                                    }
                                }
                            },
                        }
                    },
                }
                off = off + seg.len();
                i = i + 1;
            }
            proof {
                assert(segs.take(i as int) =~= segs);
                if hi > sc {
                    assert(t =~= s.subrange(sc, hi));
                } else {
                    assert(t.len() == 0);
                }
                assert forall|f: int| 1 <= f <= t.len() implies !#[trigger] occ_at(t, pat@, f) by {
                    lemma_push_step(t.take(f - 1), pat@, t[f - 1], 1);
                    assert(t.take(f) =~= t.take(f - 1).push(t[f - 1]));
                    assert(t[f - 1] == s[sc + f - 1]);
                }
                lemma_first_occ_none(t, pat@, 1);
            }
            let new_scanned = cursor.scanned();
            self.scan.update(new_scanned, 0);
            if live > scan_limit {
                self.reset_scan();
                return Err(StreamDecodeError::FrameTooLong);
            }
            return Ok(None);
        }

        // Multi-byte delimiter: KMP across segments.
        let mut matched = if self.scan.carry() < pat_len { self.scan.carry() } else { pat_len };
        let mut cursor = SegmentCursor::new(self.scan.scanned(), scan_limit);
        proof {
            lemma_lps_of_prefix(pat@, carry0);
            assert(t.take(carry0) =~= pat@.take(carry0));
        }
        let mut i: usize = 0;
        let mut off: usize = 0;
        while i < count
            invariant
                cumulation.wf(),
                s == cumulation@,
                s.len() <= usize::MAX,
                segs == cumulation.segments(),
                s == concat(segs),
                count == segs.len(),
                i <= count,
                live as int == s.len(),
                0 <= sc <= lim,
                lim == scan_limit,
                lim == sat_add(old(self).max_len as int, m),
                2 <= m <= 16,
                m == pat@.len(),
                pat_len as int == m,
                pat@ == old(self).delim@,
                self.lps@.len() == m,
                lps_table_ok(pat@, self.lps@, m),
                hi == (if (live as int) < lim { live as int } else { lim }),
                off as int == concat(segs.take(i as int)).len(),
                cursor.scan_limit == scan_limit,
                cursor.skip as int == (if sc > off { sc - off } else { 0 }),
                cursor.pos as int == (if off < lim { if sc > off { sc } else { off as int } } else { if sc > lim { sc } else { lim } }),
                cursor.pos <= sc || cursor.pos <= hi,
                self.wf(),
                self.include_delimiter == old(self).include_delimiter,
                self.max_len == old(self).max_len,
                self.delim == old(self).delim,
                self.lps == old(self).lps,
                self.scan == old(self).scan,
                sc == old(self).scan.scanned,
                carry0 == old(self).scan.carry,
                carry0 < m,
                t == delim_text(pat@, sc, carry0, s, hi),
                matched < m,
                matched as int == longest_prefix_suffix(t.take(carry0 + (cursor.pos - sc)), pat@, m - 1),
                forall|f: int| 1 <= f <= carry0 + (cursor.pos - sc) ==> !#[trigger] occ_at(t, pat@, f),
                cursor.pos >= sc,
            decreases count - i,
        {
            proof {
                lemma_concat_segment(segs, i as int);
                lemma_concat_take_next(segs, i as int);
            }
            let seg = cumulation.segment(i);
            let ghost old_pos = cursor.pos as int;
            let next = cursor.next(seg);
            match next {
                None => {},
                Some(ss) => {
                    proof {
                        assert(old_pos == off + (if sc > off { sc - off } else { 0 }));
                        assert forall|k: int| 0 <= k < ss.bytes@.len() implies #[trigger] ss.bytes@[k] == s[ss.base + k] by {
                            let skip: int = if sc > off { sc - off } else { 0 };
                            assert(ss.bytes@[k] == seg@[skip + k]);
                            assert(s[off + (skip + k)] == segs[i as int][skip + k]);
                        }
                    }
                    let mut pos = ss.base;
                    let mut k: usize = 0;
                    let blen = ss.bytes.len();
                    while k < blen
                        invariant
                            k <= blen,
                            blen == ss.bytes@.len(),
                            pos == ss.base + k,
                            ss.base == old_pos,
                            old_pos >= sc,
                            0 <= sc,
                            0 <= carry0,
                            s == cumulation@,
                            live as int == s.len(),
                            0 <= sc <= lim,
                            lim == sat_add(old(self).max_len as int, m),
                            hi == (if (live as int) < lim { live as int } else { lim }),
                            sc == old(self).scan.scanned,
                            carry0 == old(self).scan.carry,
                            ss.base + blen == cursor.pos,
                            cursor.pos <= hi,
                            forall|q: int| 0 <= q < ss.bytes@.len() ==> #[trigger] ss.bytes@[q] == s[ss.base + q],
                            s.len() <= usize::MAX,
                            2 <= m <= 16,
                            m == pat@.len(),
                            pat_len as int == m,
                            pat@ == old(self).delim@,
                            self.lps@.len() == m,
                            lps_table_ok(pat@, self.lps@, m),
                            carry0 < m,
                            t == delim_text(pat@, sc, carry0, s, hi),
                            hi <= s.len(),
                            matched < m,
                            matched as int == longest_prefix_suffix(t.take(carry0 + (pos - sc)), pat@, m - 1),
                            forall|f: int| 1 <= f <= carry0 + (pos - sc) ==> !#[trigger] occ_at(t, pat@, f),
                            self.wf(),
                            self.include_delimiter == old(self).include_delimiter,
                            self.max_len == old(self).max_len,
                            self.delim == old(self).delim,
                            self.lps == old(self).lps,
                            self.scan == old(self).scan,
                        decreases blen - k,
                    {
                        let b = ss.bytes[k];
                        let ghost cur = carry0 + (pos - sc);
                        proof {
                            assert(pos < hi);
                            assert(hi > sc);
                            assert(0 <= sc <= hi <= s.len());
                            assert(0 <= carry0 <= pat@.len());
                            let w = s.subrange(sc, hi);
                            assert(t == pat@.take(carry0) + w);
                            assert(cur < t.len());
                            assert(t[cur] == w[pos - sc]);
                            assert(t[cur] == s[pos as int]);
                            assert(t.take(cur + 1) =~= t.take(cur).push(b));
                        }
                        let r = kmp_advance(pat, self.lps.as_slice(), matched, b, Ghost(t.take(cur)));
                        if r == pat_len {
                            let end = pos + 1;
                            let start = end.saturating_sub(pat_len);
                            let msg_end = if self.include_delimiter { end } else { start };
                            proof {
                                lemma_lps_props(t.take(cur).push(b), pat@, m);
                                assert(ends_with_prefix(t.take(cur).push(b), pat@, m));
                                assert(t.take(cur + 1) =~= t.take(cur).push(b));
                                assert(t.take(cur + 1).take(cur + 1) =~= t.take(cur + 1));
                                assert(occ_at(t, pat@, cur + 1));
                                assert(!occ_at(t, pat@, 0));
                                lemma_first_occ_some(t, pat@, 1, cur + 1);
                            }
                            if msg_end > self.max_len {
                                self.reset_scan();
                                return Err(StreamDecodeError::FrameTooLong);
                            }
                            self.reset_scan();
                            return Ok(Some(FrameSpec { consumed: end, msg_start: 0, msg_end }));
                        }
                        proof {
                            lemma_lps_props(t.take(cur).push(b), pat@, m);
                            assert(t.take(cur + 1) =~= t.take(cur).push(b));
                            assert(!ends_with_prefix(t.take(cur + 1), pat@, m));
                            assert(t.take(cur + 1).take(cur + 1) =~= t.take(cur + 1));
                        }
                        matched = r;
                        pos = pos + 1;
                        k = k + 1;
                    }
                },
            }
            off = off + seg.len();
            i = i + 1;
        }
        proof {
            assert(segs.take(i as int) =~= segs);
            assert(t.take(carry0 + (cursor.pos - sc)) =~= t);
            lemma_first_occ_none(t, pat@, 1);
        }
        let new_scanned = cursor.scanned();
        self.scan.update(new_scanned, matched);
        if live > scan_limit {
            self.reset_scan();
            return Err(StreamDecodeError::FrameTooLong);
        }
        Ok(None)
    }
}

} // verus!
