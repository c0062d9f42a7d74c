//! Incremental scan state and a cursor over the segments of a cumulation.
use vstd::prelude::*;
use vstd::slice::slice_subrange;
use super::cumulation::{Cumulation, concat, lemma_concat_segment, lemma_concat_take_next, lemma_concat_take_prefix};

verus! {

/// How far a framer has scanned the current cumulation, and what it carries
/// over from the scanned bytes (the last byte, or a partial match length).
#[derive(Debug, Clone, Copy, PartialEq, Eq)]
pub struct ScanState<T: Copy> {
    pub scanned: usize,
    pub carry: T,
}

impl<T: Copy> ScanState<T> {
    pub fn new(carry: T) -> (s: Self)
        ensures
            s.scanned == 0,
            s.carry == carry,
    {
        ScanState { scanned: 0, carry }
    }

    pub fn scanned(&self) -> (n: usize)
        ensures
            n == self.scanned,
    {
        self.scanned
    }

    pub fn carry(&self) -> (c: T)
        ensures
            c == self.carry,
    {
        self.carry
    }

    pub fn reset(&mut self, carry: T)
        ensures
            final(self).scanned == 0,
            final(self).carry == carry,
    {
        self.scanned = 0;
        self.carry = carry;
    }

    pub fn update(&mut self, scanned: usize, carry: T)
        ensures
            final(self).scanned == scanned,
            final(self).carry == carry,
    {
        self.scanned = scanned;
        self.carry = carry;
    }
}

/// A scanned piece of a segment, at logical stream offset `base`.
#[derive(Debug, Clone, Copy)]
pub struct SegmentSlice<'a> {
    pub base: usize,
    pub bytes: &'a [u8],
}

/// Iterates the logical suffix of a segmented byte stream starting at
/// `scanned`, clipped to `scan_limit`.
#[derive(Debug, Clone, Copy)]
pub struct SegmentCursor {
    pub pos: usize,
    pub skip: usize,
    pub scan_limit: usize,
}

/// Skip the first `*skip` bytes across segments: a segment shorter than what
/// remains to skip is dropped whole.
pub fn seg_after_skip<'a>(seg: &'a [u8], skip: &mut usize) -> (r: Option<&'a [u8]>)
    ensures
        *old(skip) == 0 ==> r == Some(seg) && *final(skip) == 0,
        *old(skip) > 0 && *old(skip) >= seg@.len() ==> r.is_none() && *final(skip) == *old(skip) - seg@.len(),
        *old(skip) > 0 && *old(skip) < seg@.len() ==> r.is_some() && r.unwrap()@ == seg@.skip(*old(skip) as int) && *final(skip) == 0,
{
    if *skip == 0 {
        return Some(seg);
    }
    if *skip >= seg.len() {
        *skip = *skip - seg.len();
        return None;
    }
    let s = slice_subrange(seg, *skip, seg.len());
    *skip = 0;
    proof { assert(s@ =~= seg@.skip(*old(skip) as int)); }
    Some(s)
}

/// Clip a segment so that scanning from `base` does not pass `scan_limit`.
pub fn clip_to_limit<'a>(seg: &'a [u8], base: usize, scan_limit: usize) -> (r: &'a [u8])
    ensures
        r@ == seg@.take(
            if seg@.len() > (if base < scan_limit { scan_limit - base } else { 0 }) {
                (if base < scan_limit { scan_limit - base } else { 0 }) as int
            } else {
                seg@.len() as int
            },
        ),
{
    let rem = scan_limit.saturating_sub(base);
    if seg.len() > rem {
        let r = slice_subrange(seg, 0, rem);
        proof { assert(r@ =~= seg@.take(rem as int)); }
        r
    } else {
        proof { assert(seg@ =~= seg@.take(seg@.len() as int)); }
        seg
    }
}

impl SegmentCursor {
    pub fn new(scanned: usize, scan_limit: usize) -> (c: Self)
        ensures
            c.pos == scanned,
            c.skip == scanned,
            c.scan_limit == scan_limit,
    {
        SegmentCursor { pos: scanned, skip: scanned, scan_limit }
    }

    /// Feed the next segment; returns the part of it that lies in the
    /// unscanned window, at its logical offset.
    pub fn next<'a>(&mut self, seg: &'a [u8]) -> (r: Option<SegmentSlice<'a>>)
        ensures
            final(self).scan_limit == old(self).scan_limit,
            old(self).skip >= seg@.len() && old(self).skip > 0 ==> {
                &&& r.is_none()
                &&& final(self).skip == old(self).skip - seg@.len()
                &&& final(self).pos == old(self).pos
            },
            !(old(self).skip >= seg@.len() && old(self).skip > 0) ==> {
                let rest = seg@.skip(old(self).skip as int);
                &&& final(self).skip == 0
                &&& if old(self).pos >= old(self).scan_limit {
                    r.is_none() && final(self).pos == old(self).pos
                } else {
                    let n = if rest.len() > old(self).scan_limit - old(self).pos {
                        old(self).scan_limit - old(self).pos
                    } else {
                        rest.len() as int
                    };
                    &&& final(self).pos == old(self).pos + n
                    &&& n == 0 ==> r.is_none()
                    &&& n > 0 ==> r.is_some() && r.unwrap().base == old(self).pos
                        && r.unwrap().bytes@ == rest.take(n)
                }
            },
    {
        let seg2 = match seg_after_skip(seg, &mut self.skip) {
            Some(s) => s,
            None => { return None; }
        };
        proof {
            if old(self).skip == 0 {
                assert(seg@.skip(0) =~= seg@);
            }
        }
        if self.pos >= self.scan_limit {
            return None;
        }
        let scan_seg = clip_to_limit(seg2, self.pos, self.scan_limit);
        if scan_seg.len() == 0 {
            return None;
        }
        let base = self.pos;
        self.pos = self.pos + scan_seg.len();
        Some(SegmentSlice { base, bytes: scan_seg })
    }

    pub fn scanned(&self) -> (n: usize)
        ensures
            n == self.pos,
    {
        self.pos
    }
}

/// The first `min(n, len)` bytes of the cumulation.
pub fn peek_prefix(cumulation: &Cumulation, n: usize) -> (r: Vec<u8>)
    requires
        cumulation.wf(),
    ensures
        r@ == cumulation@.take(if n < cumulation@.len() { n as int } else { cumulation@.len() as int }),
{
    let mut out: Vec<u8> = Vec::new();
    let mut i: usize = 0;
    let mut off: usize = 0;
    let ghost segs = cumulation.segments();
    let count = cumulation.segment_count();
    let ghost want: int = if n < cumulation@.len() { n as int } else { cumulation@.len() as int };
    proof { cumulation.lemma_len_bounded(); }
    while i < count && out.len() < n
        invariant
            cumulation.wf(),
            cumulation@.len() <= usize::MAX,
            segs == cumulation.segments(),
            count == segs.len(),
            i <= count,
            want == (if n < cumulation@.len() { n as int } else { cumulation@.len() as int }),
            off as int == concat(segs.take(i as int)).len(),
            out@ == cumulation@.take(if off < want { off as int } else { want }),
        decreases count - i,
    {
        proof {
            lemma_concat_segment(segs, i as int);
            lemma_concat_take_next(segs, i as int);
        }
        let seg = cumulation.segment(i);
        let mut j: usize = 0;
        while j < seg.len() && out.len() < n
            invariant
                cumulation.wf(),
                segs == cumulation.segments(),
                i < segs.len(),
                seg@ == segs[i as int],
                off as int == concat(segs.take(i as int)).len(),
                off + seg@.len() <= cumulation@.len(),
                forall|k: int| 0 <= k < segs[i as int].len() ==> #[trigger] cumulation@[off + k] == segs[i as int][k],
                want == (if n < cumulation@.len() { n as int } else { cumulation@.len() as int }),
                j <= seg@.len(),
                off < want ==> out@ == cumulation@.take(if off + j < want { (off + j) as int } else { want }),
                off >= want ==> out@ == cumulation@.take(want),
                off < want ==> j <= want - off,
            decreases seg@.len() - j,
        {
            proof {
                if off >= want { assert(out@.len() == want); }
            }
            out.push(seg[j]);
            j = j + 1;
            proof {
                assert(out@ =~= cumulation@.take((off + j) as int));
            }
        }
        proof {
            if off < want && j < seg@.len() {
                assert(out@.len() == n);
            }
        }
        off = off + seg.len();
        i = i + 1;
    }
    proof {
        if i == count {
            assert(segs.take(i as int) =~= segs);
        }
    }
    out
}

} // verus!
