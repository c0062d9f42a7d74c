//! Segmented inbound byte accumulation.
//!
//! The logical stream is the concatenation of the segments in order; framers
//! scan the segments one by one without coalescing them.
use std::collections::VecDeque;
use vstd::prelude::*;

verus! {

/// Concatenation of byte segments, left to right.
pub open spec fn concat(segs: Seq<Seq<u8>>) -> Seq<u8>
    decreases segs.len(),
{
    if segs.len() == 0 {
        Seq::empty()
    } else {
        concat(segs.drop_last()) + segs.last()
    }
}

/// The byte views of a sequence of owned segments.
pub open spec fn seg_views(segs: Seq<Vec<u8>>) -> Seq<Seq<u8>> {
    segs.map_values(|v: Vec<u8>| v@)
}

/// Splitting the segment list splits the concatenation.
pub proof fn lemma_concat_split(segs: Seq<Seq<u8>>, i: int)
    requires
        0 <= i <= segs.len(),
    ensures
        concat(segs) == concat(segs.take(i)) + concat(segs.skip(i)),
    decreases segs.len(),
{
    if i == segs.len() {
        assert(segs.take(i) =~= segs);
        assert(segs.skip(i) =~= Seq::<Seq<u8>>::empty());
        assert(concat(segs) + Seq::<u8>::empty() =~= concat(segs));
    } else {
        let dl = segs.drop_last();
        lemma_concat_split(dl, i);
        assert(dl.take(i) =~= segs.take(i));
        assert(segs.skip(i).drop_last() =~= dl.skip(i));
        assert(segs.skip(i).last() == segs.last());
        assert(concat(segs) =~= concat(segs.take(i)) + concat(segs.skip(i)));
    }
}

/// Concatenating one more segment of a prefix appends that segment.
pub proof fn lemma_concat_take_next(segs: Seq<Seq<u8>>, i: int)
    requires
        0 <= i < segs.len(),
    ensures
        concat(segs.take(i + 1)) == concat(segs.take(i)) + segs[i],
{
    assert(segs.take(i + 1).drop_last() =~= segs.take(i));
}

/// The concatenation of a prefix of the segments is a prefix of the whole.
pub proof fn lemma_concat_take_prefix(segs: Seq<Seq<u8>>, i: int)
    requires
        0 <= i <= segs.len(),
    ensures
        concat(segs.take(i)).len() <= concat(segs).len(),
        concat(segs).subrange(0, concat(segs.take(i)).len() as int) == concat(segs.take(i)),
{
    lemma_concat_split(segs, i);
    assert(concat(segs).subrange(0, concat(segs.take(i)).len() as int) =~= concat(segs.take(i)));
}

/// Segment `i` sits in the concatenation right after the segments before it.
pub proof fn lemma_concat_segment(segs: Seq<Seq<u8>>, i: int)
    requires
        0 <= i < segs.len(),
    ensures
        concat(segs.take(i)).len() + segs[i].len() <= concat(segs).len(),
        forall|k: int|
            0 <= k < segs[i].len() ==> #[trigger] concat(segs)[concat(segs.take(i)).len() + k]
                == segs[i][k],
{
    lemma_concat_take_next(segs, i);
    lemma_concat_take_prefix(segs, i + 1);
    let p = concat(segs.take(i)).len() as int;
    assert forall|k: int| 0 <= k < segs[i].len() implies #[trigger] concat(segs)[p + k]
        == segs[i][k] by {
        assert(concat(segs)[p + k] == concat(segs.take(i + 1))[p + k]);
    }
}

/// Removing the first segment removes its bytes from the front.
pub proof fn lemma_concat_drop_first(segs: Seq<Seq<u8>>)
    requires
        segs.len() > 0,
    ensures
        concat(segs) == segs[0] + concat(segs.subrange(1, segs.len() as int)),
{
    lemma_concat_split(segs, 1);
    assert(segs.take(1).drop_last() =~= Seq::<Seq<u8>>::empty());
    assert(concat(Seq::<Seq<u8>>::empty()) == Seq::<u8>::empty());
    assert(concat(segs.take(1)) =~= segs[0]);
    assert(segs.skip(1) =~= segs.subrange(1, segs.len() as int));
}

/// Adding a segment at the front prepends its bytes.
pub proof fn lemma_concat_push_front(x: Seq<u8>, segs: Seq<Seq<u8>>)
    ensures
        concat(seq![x] + segs) == x + concat(segs),
{
    let t = seq![x] + segs;
    lemma_concat_drop_first(t);
    assert(t.subrange(1, t.len() as int) =~= segs);
}

/// Concatenating a single segment gives it back.
pub proof fn lemma_concat_single(x: Seq<u8>)
    ensures
        concat(seq![x]) == x,
{
    assert(seq![x].drop_last() =~= Seq::<Seq<u8>>::empty());
    assert(concat(Seq::<Seq<u8>>::empty()) == Seq::<u8>::empty());
    assert(Seq::<u8>::empty() + x =~= x);
}

/// Copy a byte slice into an owned buffer.
pub fn copy_to_vec(bytes: &[u8]) -> (v: Vec<u8>)
    ensures
        v@ == bytes@,
{
    let mut v: Vec<u8> = Vec::with_capacity(bytes.len());
    let mut i: usize = 0;
    while i < bytes.len()
        invariant
            i <= bytes@.len(),
            v@ == bytes@.subrange(0, i as int),
        decreases bytes@.len() - i,
    {
        v.push(bytes[i]);
        i = i + 1;
        proof { assert(v@ =~= bytes@.subrange(0, i as int)); }
    }
    proof { assert(bytes@.subrange(0, i as int) =~= bytes@); }
    v
}

/// How many of `segs`, laid end to end, overlap the byte range `[start, end)`.
pub open spec fn segs_touching(segs: Seq<Seq<u8>>, start: int, end: int) -> int
    decreases segs.len(),
{
    if segs.len() == 0 {
        0
    } else {
        let off = concat(segs.drop_last()).len();
        segs_touching(segs.drop_last(), start, end) + (if off < end && off + segs.last().len() > start {
            1int
        } else {
            0int
        })
    }
}

/// Statistics for a single message extraction.
#[derive(Debug, Clone, Copy, PartialEq, Eq, Default)]
pub struct TakeStats {
    /// Whether the message bytes spanned more than one segment and had to be
    /// gathered into one contiguous buffer (`segs_touching` above one).
    pub coalesced: bool,
    /// Bytes copied while gathering (the message length when `coalesced`).
    pub copied_bytes: usize,
}

/// A segmented byte queue: bytes are appended at the tail and consumed from
/// the front.
#[derive(Debug)]
pub struct Cumulation {
    segs: VecDeque<Vec<u8>>,
    len: usize,
}

impl View for Cumulation {
    type V = Seq<u8>;

    open spec fn view(&self) -> Seq<u8> {
        concat(self.segments())
    }
}

impl Cumulation {
    /// The byte view of each segment, in stream order.
    pub closed spec fn segments(&self) -> Seq<Seq<u8>> {
        seg_views(self.segs@)
    }

    /// Structural invariant: the cached length matches and no segment is empty.
    pub closed spec fn wf(&self) -> bool {
        &&& self.len as int == concat(self.segments()).len()
        &&& forall|i: int| 0 <= i < self.segments().len() ==> #[trigger] self.segments()[i].len() > 0
    }

    /// A well-formed cumulation holds no more bytes than `usize` can count.
    pub proof fn lemma_len_bounded(&self)
        requires
            self.wf(),
        ensures
            self@.len() <= usize::MAX,
    {
    }

    /// An empty cumulation (the capacity is a hint and is not retained).
    pub fn with_capacity(capacity: usize) -> (c: Self)
        ensures
            c.wf(),
            c@ == Seq::<u8>::empty(),
            c.segments() == Seq::<Seq<u8>>::empty(),
    {
        let _ = capacity;
        let c = Cumulation { segs: VecDeque::new(), len: 0 };
        assert(c.segments() =~= Seq::<Seq<u8>>::empty());
        c
    }

    /// Number of buffered bytes.
    pub fn len(&self) -> (n: usize)
        requires
            self.wf(),
        ensures
            n as int == self@.len(),
    {
        self.len
    }

    pub fn is_empty(&self) -> (b: bool)
        requires
            self.wf(),
        ensures
            b == (self@.len() == 0),
    {
        self.len == 0
    }

    /// Number of segments.
    pub fn segment_count(&self) -> (n: usize)
        ensures
            n as int == self.segments().len(),
    {
        self.segs.len()
    }

    /// The bytes of segment `i`.
    pub fn segment(&self, i: usize) -> (s: &[u8])
        requires
            i < self.segments().len(),
        ensures
            s@ == self.segments()[i as int],
    {
        self.segs[i].as_slice()
    }

    /// Append bytes at the tail (as a new segment when non-empty).
    pub fn push_bytes(&mut self, bytes: &[u8])
        requires
            old(self).wf(),
            old(self)@.len() + bytes@.len() <= usize::MAX,
        ensures
            final(self).wf(),
            final(self)@ == old(self)@ + bytes@,
    {
        if bytes.len() == 0 {
            assert(self@ =~= old(self)@ + bytes@);
            return;
        }
        let ghost old_segs = self.segments();
        let v = copy_to_vec(bytes);
        self.segs.push_back(v);
        self.len = self.len + bytes.len();
        proof {
            assert(self.segments() =~= old_segs.push(bytes@));
            assert(self.segments().drop_last() =~= old_segs);
            assert forall|i: int| 0 <= i < self.segments().len() implies #[trigger] self.segments()[i].len() > 0 by {
                if i < old_segs.len() {
                    assert(self.segments()[i] == old_segs[i]);
                }
            }
        }
    }

    /// Drop the first `n` bytes.
    pub fn consume(&mut self, n: usize)
        requires
            old(self).wf(),
            n <= old(self)@.len(),
        ensures
            final(self).wf(),
            final(self)@ == old(self)@.skip(n as int),
    {
        let mut rem = n;
        while rem > 0
            invariant
                self.wf(),
                rem <= self@.len(),
                self@.skip(rem as int) == old(self)@.skip(n as int),
            decreases rem,
        {
            let ghost before = self@;
            let ghost segs0 = self.segments();
            proof { lemma_concat_drop_first(segs0); }
            let first = self.segs.pop_front().unwrap();
            let flen = first.len();
            proof {
                assert(self.segments() =~= segs0.subrange(1, segs0.len() as int));
                assert forall|i: int| 0 <= i < self.segments().len() implies #[trigger] self.segments()[i].len() > 0 by {
                    assert(self.segments()[i] == segs0[i + 1]);
                }
            }
            if flen <= rem {
                self.len = self.len - flen;
                rem = rem - flen;
                proof {
                    assert(before == first@ + self@);
                    assert(before.skip(flen as int) =~= self@);
                    assert(self@.skip(rem as int) =~= before.skip((rem + flen) as int));
                }
            } else {
                let mut rest: Vec<u8> = Vec::new();
                let mut k = rem;
                while k < flen
                    invariant
                        rem <= k <= flen,
                        flen == first@.len(),
                        rest@ == first@.subrange(rem as int, k as int),
                    decreases flen - k,
                {
                    rest.push(first[k]);
                    k = k + 1;
                    proof { assert(rest@ =~= first@.subrange(rem as int, k as int)); }
                }
                let ghost tail_segs = self.segments();
                self.segs.push_front(rest);
                self.len = self.len - rem;
                proof {
                    assert(self.segments() =~= seq![rest@] + tail_segs);
                    lemma_concat_push_front(rest@, tail_segs);
                    assert(before == first@ + concat(tail_segs));
                    assert(self@ =~= before.skip(rem as int));
                    assert forall|i: int| 0 <= i < self.segments().len() implies #[trigger] self.segments()[i].len() > 0 by {
                        if i > 0 {
                            assert(self.segments()[i] == tail_segs[i - 1]);
                        }
                    }
                    assert(self@.skip(0) =~= self@);
                }
                rem = 0;
            }
        }
        proof { assert(self@.skip(0) =~= self@); }
    }

    /// Copy `self@[start..end]` into a contiguous buffer.
    fn copy_range(&self, start: usize, end: usize) -> (r: (Vec<u8>, bool))
        requires
            self.wf(),
            start <= end <= self@.len(),
        ensures
            r.0@ == self@.subrange(start as int, end as int),
            r.1 == (segs_touching(self.segments(), start as int, end as int) > 1),
    {
        let mut out: Vec<u8> = Vec::new();
        let mut off: usize = 0;
        let mut i: usize = 0;
        let mut touched: usize = 0;
        let ghost segs = self.segments();
        while i < self.segs.len()
            invariant
                self.wf(),
                segs == self.segments(),
                start <= end <= self@.len(),
                i <= segs.len(),
                off as int == concat(segs.take(i as int)).len(),
                out@ == self@.subrange(start as int, if off < start { start as int } else if off > end { end as int } else { off as int }),
                touched <= 2,
                touched as int == (if segs_touching(segs.take(i as int), start as int, end as int) > 2 { 2 }
                    else { segs_touching(segs.take(i as int), start as int, end as int) }),
            decreases segs.len() - i,
        {
            proof {
                lemma_concat_segment(segs, i as int);
                lemma_concat_take_next(segs, i as int);
            }
            let seg = self.segs[i].as_slice();
            let slen = seg.len();
            let mut j: usize = 0;
            while j < slen
                invariant
                    self.wf(),
                    segs == self.segments(),
                    i < segs.len(),
                    seg@ == segs[i as int],
                    slen == seg@.len(),
                    off as int == concat(segs.take(i as int)).len(),
                    off + slen <= self@.len(),
                    forall|k: int| 0 <= k < segs[i as int].len() ==> #[trigger] self@[off + k] == segs[i as int][k],
                    start <= end <= self@.len(),
                    j <= slen,
                    out@ == self@.subrange(start as int, {
                        let p = off + j;
                        if p < start { start as int } else if p > end { end as int } else { p as int }
                    }),
                decreases slen - j,
            {
                let p = off + j;
                if p >= start && p < end {
                    out.push(seg[j]);
                    proof {
                        assert(self@[off + j as int] == seg@[j as int]);
                    }
                }
                j = j + 1;
                proof {
                    let q = off + j;
                    assert(out@ =~= self@.subrange(start as int, if q < start { start as int } else if q > end { end as int } else { q as int }));
                }
            }
            proof {
                let t = segs.take(i + 1);
                assert(t.drop_last() =~= segs.take(i as int));
                assert(t.last() == segs[i as int]);
            }
            if off < end && off + slen > start && touched < 2 {
                touched = touched + 1;
            }
            off = off + slen;
            i = i + 1;
        }
        proof {
            assert(segs.take(segs.len() as int) =~= segs);
        }
        (out, touched > 1)
    }

    /// Remove the first `consumed` bytes and return `self@[0..msg_end]` of them.
    pub fn take_message_with_stats(&mut self, consumed: usize, msg_end: usize) -> (r: (Vec<u8>, TakeStats))
        requires
            old(self).wf(),
            msg_end <= consumed <= old(self)@.len(),
        ensures
            final(self).wf(),
            r.0@ == old(self)@.subrange(0, msg_end as int),
            final(self)@ == old(self)@.skip(consumed as int),
            r.1.copied_bytes == (if r.1.coalesced { msg_end } else { 0 }),
            r.1.coalesced == (segs_touching(old(self).segments(), 0, msg_end as int) > 1),
    {
        self.take_range_with_stats(consumed, 0, msg_end)
    }

    /// Remove the first `consumed` bytes and return `self@[msg_start..msg_end]` of them.
    pub fn take_range_with_stats(&mut self, consumed: usize, msg_start: usize, msg_end: usize) -> (r: (Vec<u8>, TakeStats))
        requires
            old(self).wf(),
            msg_start <= msg_end <= consumed <= old(self)@.len(),
        ensures
            final(self).wf(),
            r.0@ == old(self)@.subrange(msg_start as int, msg_end as int),
            final(self)@ == old(self)@.skip(consumed as int),
            r.1.copied_bytes == (if r.1.coalesced { (msg_end - msg_start) as usize } else { 0 }),
            r.1.coalesced == (segs_touching(old(self).segments(), msg_start as int, msg_end as int) > 1),
    {
        let (m, coalesced) = self.copy_range(msg_start, msg_end);
        self.consume(consumed);
        let stats = TakeStats {
            coalesced,
            copied_bytes: if coalesced { msg_end - msg_start } else { 0 },
        };
        (m, stats)
    }
}

} // verus!
