//! A small segmented outbound frame: prefix, payload and suffix segments.
use vstd::prelude::*;
use vstd::slice::slice_subrange;
use crate::framing::cumulation::{concat, copy_to_vec, lemma_concat_split, lemma_concat_take_next,
    lemma_concat_drop_first, lemma_concat_segment, lemma_concat_take_prefix};

verus! {

/// Maximum number of segments carried by an outbound frame.
pub const OUTBOUND_SEG_MAX: usize = 4;

/// Maximum size of an inline segment.
pub const OUTBOUND_INLINE_MAX: usize = 16;

/// Longest suffix `ends_with` inspects.
pub const ENDS_WITH_MAX_CHECK: usize = 32;

/// One frame segment: nothing, owned bytes, or a small inline buffer.
#[derive(Debug, Clone)]
pub enum FrameSeg {
    Empty,
    Bytes(Vec<u8>),
    Inline { buf: [u8; 16], len: u8 },
}

impl View for FrameSeg {
    type V = Seq<u8>;

    open spec fn view(&self) -> Seq<u8> {
        match self {
            FrameSeg::Empty => Seq::empty(),
            FrameSeg::Bytes(b) => b@,
            FrameSeg::Inline { buf, len } => buf@.take(*len as int),
        }
    }
}

impl FrameSeg {
    pub open spec fn wf(&self) -> bool {
        match self {
            FrameSeg::Inline { len, .. } => *len <= 16,
            _ => true,
        }
    }

    pub fn len(&self) -> (n: usize)
        requires
            self.wf(),
        ensures
            n as int == self@.len(),
    {
        match self {
            FrameSeg::Empty => 0,
            FrameSeg::Bytes(b) => b.len(),
            FrameSeg::Inline { len, .. } => *len as usize,
        }
    }

    pub fn as_slice(&self) -> (s: &[u8])
        requires
            self.wf(),
        ensures
            s@ == self@,
    {
        match self {
            FrameSeg::Empty => {
                let e: &[u8] = &[];
                proof { assert(e@ =~= Seq::<u8>::empty()); }
                e
            },
            FrameSeg::Bytes(b) => b.as_slice(),
            FrameSeg::Inline { buf, len } => {
                let s = slice_subrange(buf.as_slice(), 0, *len as usize);
                proof { assert(s@ =~= buf@.take(*len as int)); }
                s
            },
        }
    }

    /// The bytes from offset `off` on (empty past the end).
    pub fn slice_from(&self, off: usize) -> (s: &[u8])
        requires
            self.wf(),
        ensures
            s@ == (if off < self@.len() { self@.skip(off as int) } else { Seq::empty() }),
    {
        let s = self.as_slice();
        if off >= s.len() {
            let e: &[u8] = &[];
            proof { assert(e@ =~= Seq::<u8>::empty()); }
            e
        } else {
            let r = slice_subrange(s, off, s.len());
            proof { assert(r@ =~= s@.skip(off as int)); }
            r
        }
    }

    /// An inline segment holding `bytes` (at most `OUTBOUND_INLINE_MAX`).
    pub fn inline(bytes: &[u8]) -> (s: Self)
        requires
            bytes@.len() <= OUTBOUND_INLINE_MAX,
        ensures
            s.wf(),
            s@ == bytes@,
            s matches FrameSeg::Inline { .. },
    {
        let mut buf = [0u8; 16];
        let mut i: usize = 0;
        while i < bytes.len()
            invariant
                i <= bytes@.len() <= 16,
                buf@.len() == 16,
                buf@.take(i as int) == bytes@.take(i as int),
            decreases bytes@.len() - i,
        {
            buf[i] = bytes[i];
            i = i + 1;
            proof { assert(buf@.take(i as int) =~= bytes@.take(i as int)); }
        }
        proof { assert(bytes@.take(i as int) =~= bytes@); }
        FrameSeg::Inline { buf, len: bytes.len() as u8 }
    }
}

/// A small vectored outbound frame (at most `OUTBOUND_SEG_MAX` segments).
#[derive(Debug, Clone)]
pub struct OutboundFrame {
    segs: Vec<FrameSeg>,
}

impl View for OutboundFrame {
    type V = Seq<Seq<u8>>;

    /// The segments' bytes, in order.
    closed spec fn view(&self) -> Seq<Seq<u8>> {
        self.segs@.map_values(|s: FrameSeg| s@)
    }
}

/// The bytes of a frame: its segments concatenated.
pub open spec fn frame_bytes(segs: Seq<Seq<u8>>) -> Seq<u8> {
    concat(segs)
}

/// `b` ends with `suffix`.
pub open spec fn seq_ends_with(b: Seq<u8>, suffix: Seq<u8>) -> bool {
    suffix.len() <= b.len() && b.subrange(b.len() - suffix.len(), b.len() as int) == suffix
}

/// What `ends_with` answers: true for an empty suffix, false for one longer
/// than `ENDS_WITH_MAX_CHECK`, else whether the bytes end with it.
pub open spec fn frame_ends_with(segs: Seq<Seq<u8>>, suffix: Seq<u8>) -> bool {
    if suffix.len() == 0 {
        true
    } else if suffix.len() > ENDS_WITH_MAX_CHECK {
        false
    } else {
        seq_ends_with(frame_bytes(segs), suffix)
    }
}

/// The segments after `append_suffix`.
pub open spec fn append_suffix_spec(segs: Seq<Seq<u8>>, suffix: Seq<u8>) -> Seq<Seq<u8>> {
    if frame_ends_with(segs, suffix) {
        segs
    } else if segs.len() < OUTBOUND_SEG_MAX {
        segs.push(suffix)
    } else {
        segs.update(segs.len() - 1, segs.last() + suffix)
    }
}

impl OutboundFrame {
    pub closed spec fn wf(&self) -> bool {
        &&& 1 <= self.segs@.len() <= OUTBOUND_SEG_MAX
        &&& forall|i: int| 0 <= i < self.segs@.len() ==> #[trigger] self.segs@[i].wf()
    }

    /// A well-formed frame has between one and `OUTBOUND_SEG_MAX` segments.
    pub proof fn lemma_wf_shape(&self)
        requires
            self.wf(),
        ensures
            1 <= self@.len() <= OUTBOUND_SEG_MAX,
    {
    }

    /// A single-segment frame holding `bytes`.
    pub fn from_bytes(bytes: Vec<u8>) -> (f: Self)
        ensures
            f.wf(),
            f@ == seq![bytes@],
    {
        let ghost b = bytes@;
        let mut segs: Vec<FrameSeg> = Vec::new();
        segs.push(FrameSeg::Bytes(bytes));
        let f = OutboundFrame { segs };
        proof { assert(f@ =~= seq![b]); }
        f
    }

    pub fn seg_count(&self) -> (n: usize)
        ensures
            n as int == self@.len(),
    {
        self.segs.len()
    }

    /// Total bytes, saturated at `usize::MAX`.
    pub fn len(&self) -> (n: usize)
        requires
            self.wf(),
        ensures
            n as int == (if frame_bytes(self@).len() > usize::MAX { usize::MAX as int } else { frame_bytes(self@).len() as int }),
    {
        let mut n: usize = 0;
        let mut i: usize = 0;
        while i < self.segs.len()
            invariant
                self.wf(),
                i <= self@.len(),
                n as int == (if concat(self@.take(i as int)).len() > usize::MAX { usize::MAX as int } else { concat(self@.take(i as int)).len() as int }),
            decreases self@.len() - i,
        {
            proof {
                lemma_concat_take_next(self@, i as int);
                assert(self.segs@[i as int].wf());
            }
            n = n.saturating_add(self.segs[i].len());
            i = i + 1;
        }
        proof { assert(self@.take(i as int) =~= self@); }
        n
    }

    pub fn is_empty(&self) -> (b: bool)
        requires
            self.wf(),
        ensures
            b == (frame_bytes(self@).len() == 0),
    {
        self.len() == 0
    }

    pub fn seg_len(&self, idx: usize) -> (n: usize)
        requires
            self.wf(),
        ensures
            n as int == (if idx < self@.len() { self@[idx as int].len() as int } else { 0 }),
    {
        if idx < self.segs.len() {
            proof { assert(self.segs@[idx as int].wf()); }
            self.segs[idx].len()
        } else {
            0
        }
    }

    pub fn seg_slice(&self, idx: usize) -> (s: &[u8])
        requires
            self.wf(),
        ensures
            s@ == (if idx < self@.len() { self@[idx as int] } else { Seq::empty() }),
    {
        if idx < self.segs.len() {
            proof { assert(self.segs@[idx as int].wf()); }
            self.segs[idx].as_slice()
        } else {
            let e: &[u8] = &[];
            proof { assert(e@ =~= Seq::<u8>::empty()); }
            e
        }
    }

    pub fn seg_slice_from(&self, idx: usize, off: usize) -> (s: &[u8])
        requires
            self.wf(),
        ensures
            s@ == (if idx < self@.len() && off < self@[idx as int].len() { self@[idx as int].skip(off as int) } else { Seq::empty() }),
    {
        if idx < self.segs.len() {
            proof { assert(self.segs@[idx as int].wf()); }
            self.segs[idx].slice_from(off)
        } else {
            let e: &[u8] = &[];
            proof { assert(e@ =~= Seq::<u8>::empty()); }
            e
        }
    }

    /// Whether the frame's bytes end with `suffix` (true for an empty
    /// suffix; false for one longer than `ENDS_WITH_MAX_CHECK`).
    pub fn ends_with(&self, suffix: &[u8]) -> (b: bool)
        requires
            self.wf(),
        ensures
            b == frame_ends_with(self@, suffix@),
    {
        if suffix.len() == 0 {
            return true;
        }
        if suffix.len() > ENDS_WITH_MAX_CHECK {
            return false;
        }
        let need = suffix.len();
        let ghost segs = self@;
        let ghost flat = concat(segs);
        // `buf[k]` is the `k`-th byte from the end.
        let mut buf: Vec<u8> = Vec::new();
        let mut i = self.segs.len();
        while i > 0 && buf.len() < need
            invariant
                self.wf(),
                segs == self@,
                flat == concat(segs),
                i <= segs.len(),
                buf@.len() <= need,
                forall|k: int| 0 <= k < buf@.len() ==> #[trigger] buf@[k] == flat[flat.len() - 1 - k],
                buf@.len() < need ==> buf@.len() == concat(segs.skip(i as int)).len(),
                buf@.len() <= concat(segs.skip(i as int)).len(),
                concat(segs.skip(i as int)).len() <= flat.len(),
            decreases i,
        {
            proof {
                assert(self.segs@[i - 1].wf());
                lemma_concat_split(segs, i - 1);
                lemma_concat_drop_first(segs.skip(i - 1));
                assert(segs.skip(i - 1).subrange(1, segs.skip(i - 1).len() as int) =~= segs.skip(i as int));
                assert(segs.skip(i - 1)[0] == segs[i - 1]);
            }
            let s = self.segs[i - 1].as_slice();
            let mut j = s.len();
            while j > 0 && buf.len() < need
                invariant
                    j <= s@.len(),
                    s@ == segs[i - 1],
                    1 <= i <= segs.len(),
                    flat == concat(segs.take(i - 1)) + s@ + concat(segs.skip(i as int)),
                    buf@.len() <= need,
                    forall|k: int| 0 <= k < buf@.len() ==> #[trigger] buf@[k] == flat[flat.len() - 1 - k],
                    buf@.len() < need ==> buf@.len() == concat(segs.skip(i as int)).len() + s@.len() - j,
                    buf@.len() <= concat(segs.skip(i as int)).len() + s@.len() - j,
                decreases j,
            {
                j = j - 1;
                proof {
                    let p = concat(segs.take(i - 1)).len() + j;
                    assert(flat[p] == s@[j as int]);
                    assert(flat.len() - 1 - buf@.len() == p);
                }
                buf.push(s[j]);
            }
            i = i - 1;
            proof {
                assert(concat(segs.skip(i as int)).len() == s@.len() + concat(segs.skip(i + 1)).len());
            }
        }
        if buf.len() < need {
            proof {
                assert(segs.skip(0) =~= segs);
                assert(!seq_ends_with(flat, suffix@));
            }
            return false;
        }
        let mut k: usize = 0;
        while k < need
            invariant
                need == suffix@.len() == buf@.len(),
                flat == concat(self@),
                1 <= need <= ENDS_WITH_MAX_CHECK,
                need <= flat.len(),
                forall|q: int| 0 <= q < buf@.len() ==> #[trigger] buf@[q] == flat[flat.len() - 1 - q],
                k <= need,
                forall|q: int| 0 <= q < k ==> #[trigger] suffix@[need - 1 - q] == flat[flat.len() - 1 - q],
            decreases need - k,
        {
            if buf[k] != suffix[need - 1 - k] {
                proof {
                    let t = flat.subrange(flat.len() - need, flat.len() as int);
                    assert(t[need - 1 - k] == flat[flat.len() - 1 - k]);
                    assert(t != suffix@);
                }
                return false;
            }
            k = k + 1;
        }
        proof {
            let t = flat.subrange(flat.len() - need, flat.len() as int);
            assert forall|q: int| 0 <= q < need implies t[q] == suffix@[q] by {
                assert(suffix@[need - 1 - (need - 1 - q)] == flat[flat.len() - 1 - (need - 1 - q)]);
            }
            assert(t =~= suffix@);
        }
        true
    }

    /// Prepend a small inline segment; `None` when `prefix` is longer than
    /// `OUTBOUND_INLINE_MAX` or no segment slot is left. An empty prefix
    /// leaves the frame unchanged.
    pub fn try_prepend_inline(self, prefix: &[u8]) -> (r: Option<Self>)
        requires
            self.wf(),
        ensures
            r.is_some() <==> (prefix@.len() == 0 || (prefix@.len() <= OUTBOUND_INLINE_MAX && self@.len() < OUTBOUND_SEG_MAX)),
            r matches Some(f) ==> f.wf() && f@ == (if prefix@.len() == 0 { self@ } else { seq![prefix@] + self@ }),
    {
        if prefix.len() == 0 {
            return Some(self);
        }
        if prefix.len() > OUTBOUND_INLINE_MAX {
            return None;
        }
        if self.segs.len() >= OUTBOUND_SEG_MAX {
            return None;
        }
        let mut segs = self.segs;
        let ghost old_segs = segs@;
        segs.insert(0, FrameSeg::inline(prefix));
        let f = OutboundFrame { segs };
        proof {
            assert(f@ =~= seq![prefix@] + self@);
            assert forall|i: int| 0 <= i < f.segs@.len() implies #[trigger] f.segs@[i].wf() by {
                if i > 0 { assert(f.segs@[i] == old_segs[i - 1]); }
            }
        }
        Some(f)
    }

    /// Append `suffix` unless the frame already ends with it: as a new
    /// segment while a slot is free (inline when it fits), else coalesced
    /// into the last segment.
    pub fn append_suffix(self, suffix: &[u8]) -> (f: Self)
        requires
            self.wf(),
        ensures
            f.wf(),
            f@ == append_suffix_spec(self@, suffix@),
    {
        if suffix.len() == 0 || self.ends_with(suffix) {
            return self;
        }
        let n = self.segs.len();
        let ghost old_view = self@;
        let mut segs = self.segs;
        let ghost old_segs = segs@;
        if n < OUTBOUND_SEG_MAX {
            if suffix.len() <= OUTBOUND_INLINE_MAX {
                segs.push(FrameSeg::inline(suffix));
            } else {
                segs.push(FrameSeg::Bytes(copy_to_vec(suffix)));
            }
            let f = OutboundFrame { segs };
            proof {
                assert(f@ =~= old_view.push(suffix@));
                assert forall|i: int| 0 <= i < f.segs@.len() implies #[trigger] f.segs@[i].wf() by {
                    if i < n { assert(f.segs@[i] == old_segs[i]); }
                }
            }
            return f;
        }
        let last = n - 1;
        proof { assert(old_segs[last as int].wf()); }
        let tail = segs[last].as_slice();
        let mut v: Vec<u8> = Vec::new();
        let mut k: usize = 0;
        while k < tail.len()
            invariant
                k <= tail@.len(),
                v@ == tail@.take(k as int),
            decreases tail@.len() - k,
        {
            v.push(tail[k]);
            k = k + 1;
            proof { assert(v@ =~= tail@.take(k as int)); }
        }
        let mut k2: usize = 0;
        proof {
            assert(tail@.take(k as int) =~= tail@);
            assert(v@ =~= tail@ + suffix@.take(0));
        }
        while k2 < suffix.len()
            invariant
                k2 <= suffix@.len(),
                v@ == tail@ + suffix@.take(k2 as int),
            decreases suffix@.len() - k2,
        {
            v.push(suffix[k2]);
            k2 = k2 + 1;
            proof { assert(v@ =~= tail@ + suffix@.take(k2 as int)); }
        }
        proof {
            assert(tail@.take(k as int) =~= tail@);
            assert(suffix@.take(k2 as int) =~= suffix@);
        }
        let ghost vv = v@;
        segs.set(last, FrameSeg::Bytes(v));
        let f = OutboundFrame { segs };
        proof {
            assert(f@ =~= old_view.update(last as int, old_view.last() + suffix@));
            assert forall|i: int| 0 <= i < f.segs@.len() implies #[trigger] f.segs@[i].wf() by {
                if i != last { assert(f.segs@[i] == old_segs[i]); }
            }
        }
        f
    }
}

/// Appending a suffix makes the frame end with it, appends it to the bytes
/// unless already there, and a second identical append changes nothing.
pub proof fn lemma_append_suffix_idempotent(segs: Seq<Seq<u8>>, suffix: Seq<u8>)
    requires
        1 <= segs.len() <= OUTBOUND_SEG_MAX,
        suffix.len() <= ENDS_WITH_MAX_CHECK,
    ensures
        frame_bytes(append_suffix_spec(segs, suffix)) == (if frame_ends_with(segs, suffix) {
            frame_bytes(segs)
        } else {
            frame_bytes(segs) + suffix
        }),
        frame_ends_with(append_suffix_spec(segs, suffix), suffix),
        append_suffix_spec(append_suffix_spec(segs, suffix), suffix) == append_suffix_spec(segs, suffix),
{
    let a = append_suffix_spec(segs, suffix);
    if !frame_ends_with(segs, suffix) {
        if segs.len() < OUTBOUND_SEG_MAX {
            assert(a.drop_last() =~= segs);
        } else {
            let n = segs.len() as int;
            assert(a.drop_last() =~= segs.drop_last());
            assert(concat(a) =~= concat(segs.drop_last()) + segs.last() + suffix);
        }
        let b = frame_bytes(a);
        assert(b.subrange(b.len() - suffix.len(), b.len() as int) =~= suffix);
    }
}

} // verus!
