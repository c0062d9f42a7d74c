//! Outbound frame queue with high/low watermarks and budgeted, vectored
//! flushing into a non-blocking backend.
use std::collections::VecDeque;
use vstd::prelude::*;
use crate::framing::cumulation::{concat, lemma_concat_drop_first, lemma_concat_push_front, lemma_concat_single,
    lemma_concat_split};
use crate::outbound::frame::{OutboundFrame, frame_bytes};
use crate::io::{IoOps, WriteCall, accepted, accepted_total, slices_bytes, slice_views, iov_total, lemma_slices_take_next,
    vectored_log_ok, log_extends};
use crate::policy::{FlushBudget, MAX_IOV_CAP};
use crate::uci::KernelError;

verus! {

/// Outcome of a flush.
#[derive(Debug, Clone, Copy, PartialEq, Eq)]
pub enum FlushStatus {
    /// Buffer fully drained.
    Drained,
    /// The backend would block; WRITE interest is needed.
    WouldBlock,
    /// Flush budget reached; a later tick must continue.
    Limited,
    /// Channel closed.
    Closed,
    /// Other error.
    Error,
}

/// A writability transition reported by the buffer.
#[derive(Debug, Clone, Copy, PartialEq, Eq)]
pub enum WritabilityChange {
    Unchanged,
    BecameWritable { pending_bytes: usize },
    BecameUnwritable { pending_bytes: usize },
}

/// The bytes of frame `f` from segment `seg`, offset `off` on.
pub open spec fn rest_of(f: Seq<Seq<u8>>, seg: int, off: int) -> Seq<u8> {
    if 0 <= seg < f.len() {
        f[seg].skip(off) + concat(f.skip(seg + 1))
    } else {
        Seq::empty()
    }
}

/// The bytes of each frame.
pub open spec fn frame_totals(fs: Seq<Seq<Seq<u8>>>) -> Seq<Seq<u8>> {
    fs.map_values(|f: Seq<Seq<u8>>| concat(f))
}

/// The bytes of frame `fi` from `(seg, off)` on, followed by every later frame.
pub open spec fn tail_from(fs: Seq<Seq<Seq<u8>>>, fi: int, seg: int, off: int) -> Seq<u8> {
    if 0 <= fi < fs.len() {
        rest_of(fs[fi], seg, off) + concat(frame_totals(fs.skip(fi + 1)))
    } else {
        Seq::empty()
    }
}

/// `new` is `old` with a prefix of whole frames removed and a prefix of the
/// next frame's bytes removed (or nothing is left at all).
pub open spec fn trimmed_from(new: Seq<Seq<u8>>, old: Seq<Seq<u8>>) -> bool {
    new.len() == 0 || exists|k: int, m: int|
        0 <= k < old.len() && 0 <= m <= old[k].len() && new == seq![old[k].skip(m)] + old.skip(k + 1)
}

/// Whether the buffer is writable after a recomputation: at or above the
/// high mark it is not, at or below the low mark it is, in between it keeps
/// its previous state.
pub open spec fn next_writable(prev: bool, total: int, high: int, low: int) -> bool {
    if total >= high {
        false
    } else if total <= low {
        true
    } else {
        prev
    }
}

/// The change reported when writability goes from `prev` to `next`.
pub open spec fn writability_change_spec(prev: bool, next: bool, total: int) -> WritabilityChange {
    if prev && !next {
        WritabilityChange::BecameUnwritable { pending_bytes: total as usize }
    } else if !prev && next {
        WritabilityChange::BecameWritable { pending_bytes: total as usize }
    } else {
        WritabilityChange::Unchanged
    }
}

/// Stepping past the end of a segment does not change the bytes ahead.
proof fn lemma_rest_next_seg(f: Seq<Seq<u8>>, seg: int, off: int)
    requires
        0 <= seg < f.len(),
        0 <= off <= f[seg].len(),
    ensures
        rest_of(f, seg, off) == f[seg].skip(off) + rest_of(f, seg + 1, 0),
{
    if seg + 1 < f.len() {
        lemma_concat_drop_first(f.skip(seg + 1));
        assert(f.skip(seg + 1).subrange(1, f.skip(seg + 1).len() as int) =~= f.skip(seg + 2));
        assert(f[seg + 1].skip(0) =~= f[seg + 1]);
        assert(f.skip(seg + 1)[0] == f[seg + 1]);
    } else {
        assert(f.skip(seg + 1) =~= Seq::<Seq<u8>>::empty());
        assert(f[seg].skip(off) + Seq::<u8>::empty() =~= f[seg].skip(off));
    }
}

/// Moving the offset forward by `k` drops `k` bytes from the front.
proof fn lemma_rest_advance(f: Seq<Seq<u8>>, seg: int, off: int, k: int)
    requires
        0 <= seg < f.len(),
        0 <= off,
        0 <= k,
        off + k <= f[seg].len(),
    ensures
        rest_of(f, seg, off + k) == rest_of(f, seg, off).skip(k),
{
    assert(rest_of(f, seg, off + k) =~= rest_of(f, seg, off).skip(k));
}

/// From the start, the rest of a frame is all of its bytes.
proof fn lemma_rest_start(f: Seq<Seq<u8>>)
    requires
        f.len() >= 1,
    ensures
        rest_of(f, 0, 0) == concat(f),
{
    lemma_concat_drop_first(f);
    assert(f.subrange(1, f.len() as int) =~= f.skip(1));
    assert(f[0].skip(0) =~= f[0]);
}

/// `trimmed_from` is transitive.
proof fn lemma_trimmed_trans(c: Seq<Seq<u8>>, b: Seq<Seq<u8>>, a: Seq<Seq<u8>>)
    requires
        trimmed_from(c, b),
        trimmed_from(b, a),
    ensures
        trimmed_from(c, a),
{
    if c.len() > 0 {
        let (k2, m2) = choose|k: int, m: int|
            0 <= k < b.len() && 0 <= m <= b[k].len() && c == seq![b[k].skip(m)] + b.skip(k + 1);
        assert(b.len() > 0);
        let (k1, m1) = choose|k: int, m: int|
            0 <= k < a.len() && 0 <= m <= a[k].len() && b == seq![a[k].skip(m)] + a.skip(k + 1);
        if k2 == 0 {
            assert(b[0] == a[k1].skip(m1));
            assert(c =~= seq![a[k1].skip(m1 + m2)] + a.skip(k1 + 1)) by {
                assert(b.skip(1) =~= a.skip(k1 + 1));
                assert(a[k1].skip(m1).skip(m2) =~= a[k1].skip(m1 + m2));
            }
        } else {
            assert(b[k2] == a[k1 + k2]);
            assert(c =~= seq![a[k1 + k2].skip(m2)] + a.skip(k1 + k2 + 1)) by {
                assert(b.skip(k2 + 1) =~= a.skip(k1 + k2 + 1));
            }
        }
    }
}

/// A sequence is trimmed from itself.
proof fn lemma_trimmed_refl(a: Seq<Seq<u8>>)
    ensures
        trimmed_from(a, a),
{
    if a.len() > 0 {
        assert(a[0].skip(0) =~= a[0]);
        assert(a =~= seq![a[0].skip(0)] + a.skip(1));
    }
}

/// From the start of a segment, the bytes ahead are that segment's bytes
/// from `off` followed by everything after it.
proof fn lemma_tail_next_seg(fs: Seq<Seq<Seq<u8>>>, fi: int, si: int, off: int)
    requires
        0 <= fi < fs.len(),
        0 <= si < fs[fi].len(),
        0 <= off <= fs[fi][si].len(),
    ensures
        tail_from(fs, fi, si, off) == fs[fi][si].skip(off) + tail_from(fs, fi, si + 1, 0),
{
    lemma_rest_next_seg(fs[fi], si, off);
    assert(tail_from(fs, fi, si, off) =~= fs[fi][si].skip(off) + tail_from(fs, fi, si + 1, 0));
}

/// Past the last segment of a frame, the bytes ahead start at the next frame.
proof fn lemma_tail_next_frame(fs: Seq<Seq<Seq<u8>>>, fi: int)
    requires
        0 <= fi < fs.len(),
        forall|j: int| 0 <= j < fs.len() ==> #[trigger] fs[j].len() >= 1,
    ensures
        tail_from(fs, fi, fs[fi].len() as int, 0) == tail_from(fs, fi + 1, 0, 0),
{
    let rest = frame_totals(fs.skip(fi + 1));
    assert(rest_of(fs[fi], fs[fi].len() as int, 0) =~= Seq::<u8>::empty());
    assert(tail_from(fs, fi, fs[fi].len() as int, 0) =~= concat(rest));
    if fi + 1 < fs.len() {
        lemma_concat_drop_first(rest);
        assert(rest.subrange(1, rest.len() as int) =~= frame_totals(fs.skip(fi + 2)));
        assert(rest[0] == concat(fs[fi + 1]));
        lemma_rest_start(fs[fi + 1]);
    } else {
        assert(rest =~= Seq::<Seq<u8>>::empty());
    }
}

/// The segments of frame `f` from segment `seg`, offset `off` on.
pub open spec fn segs_rest(f: Seq<Seq<u8>>, seg: int, off: int) -> Seq<Seq<u8>> {
    if 0 <= seg < f.len() {
        seq![f[seg].skip(off)] + f.skip(seg + 1)
    } else {
        Seq::empty()
    }
}

/// The segments of frame `fi` from `(seg, off)` on, followed by those of
/// every later frame.
pub open spec fn seg_tail(fs: Seq<Seq<Seq<u8>>>, fi: int, seg: int, off: int) -> Seq<Seq<u8>> {
    if 0 <= fi < fs.len() {
        segs_rest(fs[fi], seg, off) + fs.skip(fi + 1).flatten()
    } else {
        Seq::empty()
    }
}

/// The non-empty segments of a segment list, in order.
pub open spec fn nonempty_segs(segs: Seq<Seq<u8>>) -> Seq<Seq<u8>>
    decreases segs.len(),
{
    if segs.len() == 0 {
        Seq::empty()
    } else if segs[0].len() == 0 {
        nonempty_segs(segs.skip(1))
    } else {
        seq![segs[0]] + nonempty_segs(segs.skip(1))
    }
}

/// A segment list with its first `n` bytes removed (segments used up are
/// dropped).
pub open spec fn drop_front(segs: Seq<Seq<u8>>, n: int) -> Seq<Seq<u8>>
    decreases segs.len(),
{
    if segs.len() == 0 || n <= 0 {
        segs
    } else if n < segs[0].len() {
        seq![segs[0].skip(n)] + segs.skip(1)
    } else {
        drop_front(segs.skip(1), n - segs[0].len())
    }
}

/// The slices one write call is offered when the pending segments are
/// `segs` and at most `cap` slices fit: the first `cap`, or all of them.
pub open spec fn iov_of(segs: Seq<Seq<u8>>, cap: int) -> Seq<Seq<u8>> {
    if segs.len() <= cap {
        segs
    } else {
        segs.take(cap)
    }
}

/// A segment in front adds itself, when non-empty, to the non-empty ones.
proof fn lemma_nonempty_push_front(x: Seq<u8>, r: Seq<Seq<u8>>)
    ensures
        nonempty_segs(seq![x] + r) == (if x.len() > 0 { seq![x] + nonempty_segs(r) } else { nonempty_segs(r) }),
{
    let t = seq![x] + r;
    assert(t[0] == x);
    assert(t.skip(1) =~= r);
}

/// The non-empty segments of a concatenation are those of each part.
proof fn lemma_nonempty_add(a: Seq<Seq<u8>>, b: Seq<Seq<u8>>)
    ensures
        nonempty_segs(a + b) == nonempty_segs(a) + nonempty_segs(b),
    decreases a.len(),
{
    if a.len() == 0 {
        assert(a + b =~= b);
        assert(nonempty_segs(a) + nonempty_segs(b) =~= nonempty_segs(b));
    } else {
        let t = a + b;
        assert(t[0] == a[0]);
        assert(t.skip(1) =~= a.skip(1) + b);
        lemma_nonempty_add(a.skip(1), b);
        if a[0].len() > 0 {
            assert(seq![a[0]] + (nonempty_segs(a.skip(1)) + nonempty_segs(b))
                =~= (seq![a[0]] + nonempty_segs(a.skip(1))) + nonempty_segs(b));
        }
    }
}

/// Dropping `a` bytes and then `b` more drops `a + b`.
proof fn lemma_drop_front_add(segs: Seq<Seq<u8>>, a: int, b: int)
    requires
        a >= 0,
        b >= 0,
    ensures
        drop_front(drop_front(segs, a), b) == drop_front(segs, a + b),
    decreases segs.len(),
{
    if segs.len() == 0 || a == 0 {
    } else if a < segs[0].len() {
        let t = seq![segs[0].skip(a)] + segs.skip(1);
        assert(t[0] == segs[0].skip(a));
        assert(t.skip(1) =~= segs.skip(1));
        if b > 0 && b < t[0].len() {
            assert(t[0].skip(b) =~= segs[0].skip(a + b));
        }
    } else {
        lemma_drop_front_add(segs.skip(1), a - segs[0].len(), b);
    }
}

/// Stepping to the next segment of a frame splits off the current one.
proof fn lemma_seg_tail_next_seg(fs: Seq<Seq<Seq<u8>>>, fi: int, si: int, off: int)
    requires
        0 <= fi < fs.len(),
        0 <= si < fs[fi].len(),
    ensures
        seg_tail(fs, fi, si, off) == seq![fs[fi][si].skip(off)] + seg_tail(fs, fi, si + 1, 0),
{
    let f = fs[fi];
    if si + 1 < f.len() {
        assert(f[si + 1].skip(0) =~= f[si + 1]);
        assert(seq![f[si + 1].skip(0)] + f.skip(si + 2) =~= f.skip(si + 1));
    } else {
        assert(f.skip(si + 1) =~= Seq::<Seq<u8>>::empty());
    }
    assert(seg_tail(fs, fi, si, off) =~= seq![fs[fi][si].skip(off)] + seg_tail(fs, fi, si + 1, 0));
}

/// Past the last segment of a frame, the segments ahead start at the next
/// frame.
proof fn lemma_seg_tail_next_frame(fs: Seq<Seq<Seq<u8>>>, fi: int)
    requires
        0 <= fi < fs.len(),
        forall|j: int| 0 <= j < fs.len() ==> #[trigger] fs[j].len() >= 1,
    ensures
        seg_tail(fs, fi, fs[fi].len() as int, 0) == seg_tail(fs, fi + 1, 0, 0),
{
    let rest = fs.skip(fi + 1);
    assert(seg_tail(fs, fi, fs[fi].len() as int, 0) =~= rest.flatten());
    if fi + 1 < fs.len() {
        let g = fs[fi + 1];
        assert(g.len() >= 1);
        assert(rest.first() == g);
        assert(rest.drop_first() =~= fs.skip(fi + 2));
        assert(g[0].skip(0) =~= g[0]);
        assert(seq![g[0].skip(0)] + g.skip(1) =~= g);
    } else {
        assert(rest =~= Seq::<Seq<Seq<u8>>>::empty());
    }
}

/// Concatenating two segment lists concatenates their bytes.
proof fn lemma_concat_add(a: Seq<Seq<u8>>, b: Seq<Seq<u8>>)
    ensures
        concat(a + b) == concat(a) + concat(b),
{
    lemma_concat_split(a + b, a.len() as int);
    assert((a + b).take(a.len() as int) =~= a);
    assert((a + b).skip(a.len() as int) =~= b);
}

/// Dropping empty segments keeps the bytes.
proof fn lemma_nonempty_bytes(x: Seq<Seq<u8>>)
    ensures
        concat(nonempty_segs(x)) == concat(x),
    decreases x.len(),
{
    if x.len() > 0 {
        lemma_nonempty_bytes(x.skip(1));
        assert(x =~= seq![x[0]] + x.skip(1));
        lemma_concat_push_front(x[0], x.skip(1));
        if x[0].len() > 0 {
            lemma_concat_push_front(x[0], nonempty_segs(x.skip(1)));
        } else {
            assert(x[0] + concat(x.skip(1)) =~= concat(x.skip(1)));
        }
    } else {
        assert(nonempty_segs(x) =~= x);
    }
}

/// The segments of a list of frames carry the bytes of the frames.
proof fn lemma_flatten_bytes(fs: Seq<Seq<Seq<u8>>>)
    ensures
        concat(fs.flatten()) == concat(frame_totals(fs)),
    decreases fs.len(),
{
    if fs.len() > 0 {
        lemma_flatten_bytes(fs.drop_first());
        assert(fs.drop_first() =~= fs.skip(1));
        lemma_concat_add(fs.first(), fs.drop_first().flatten());
        assert(frame_totals(fs) =~= seq![concat(fs[0])] + frame_totals(fs.skip(1)));
        lemma_concat_push_front(concat(fs[0]), frame_totals(fs.skip(1)));
    } else {
        assert(frame_totals(fs) =~= Seq::<Seq<u8>>::empty());
    }
}

/// The segments ahead of a position carry the bytes ahead of it.
proof fn lemma_seg_tail_bytes(fs: Seq<Seq<Seq<u8>>>, fi: int, seg: int, off: int)
    ensures
        concat(seg_tail(fs, fi, seg, off)) == tail_from(fs, fi, seg, off),
{
    if 0 <= fi < fs.len() {
        let f = fs[fi];
        lemma_concat_add(segs_rest(f, seg, off), fs.skip(fi + 1).flatten());
        lemma_flatten_bytes(fs.skip(fi + 1));
        if 0 <= seg < f.len() {
            lemma_concat_push_front(f[seg].skip(off), f.skip(seg + 1));
        } else {
            assert(segs_rest(f, seg, off) =~= Seq::<Seq<u8>>::empty());
        }
    } else {
        assert(seg_tail(fs, fi, seg, off) =~= Seq::<Seq<u8>>::empty());
    }
}

/// The slice limit of one write call: `max_iov` clamped to `1..=MAX_IOV_CAP`.
pub open spec fn iov_cap(max_iov: usize) -> int {
    if max_iov < 1 {
        1
    } else if max_iov > MAX_IOV_CAP {
        MAX_IOV_CAP as int
    } else {
        max_iov as int
    }
}

/// Write calls offered more than one slice.
pub open spec fn multi_slice_calls(calls: Seq<WriteCall>) -> int
    decreases calls.len(),
{
    if calls.len() == 0 {
        0
    } else {
        multi_slice_calls(calls.drop_last()) + (if calls.last().0.len() > 1 { 1int } else { 0int })
    }
}

/// The flush status a backend error stops a flush with.
pub open spec fn error_status(e: KernelError) -> FlushStatus {
    match e {
        KernelError::WouldBlock => FlushStatus::WouldBlock,
        KernelError::Closed | KernelError::Eof | KernelError::Reset => FlushStatus::Closed,
        _ => FlushStatus::Error,
    }
}

/// Write call `i` of `calls`, in a flush that started with pending bytes `p`
/// under `budget`: it was offered between one and `iov_cap(budget.max_iov)`
/// non-empty slices that continue `p` from the bytes accepted before it, and
/// accepted at most what it was offered.
pub open spec fn call_ok(calls: Seq<WriteCall>, i: int, p: Seq<u8>, budget: FlushBudget) -> bool {
    let c = calls[i];
    let before = accepted_total(calls.take(i));
    &&& 1 <= c.0.len() <= iov_cap(budget.max_iov)
    &&& forall|j: int| 0 <= j < c.0.len() ==> (#[trigger] c.0[j]).len() > 0
    &&& before + concat(c.0).len() <= p.len()
    &&& concat(c.0) == p.subrange(before, before + concat(c.0).len())
    &&& (c.1 matches Ok(n) ==> n <= concat(c.0).len())
}

/// Write call `i` of `calls`, in a flush that started with pending
/// segments `segs` under `budget`: it was offered the first
/// `iov_cap(budget.max_iov)` (or all) of the non-empty segments left once the
/// bytes accepted before it are gone.
pub open spec fn call_segs_ok(calls: Seq<WriteCall>, i: int, segs: Seq<Seq<u8>>, budget: FlushBudget) -> bool {
    calls[i].0 == iov_of(drop_front(segs, accepted_total(calls.take(i))), iov_cap(budget.max_iov))
}

/// The write calls of a flush that started with pending bytes `p` under
/// `budget`, against its result `(status, written, syscalls, writev_calls)`:
/// one entry per call, each as `call_ok` says; every call but the last
/// accepted some bytes; the last answer decides the status (a backend error
/// by `error_status`, zero bytes `WouldBlock`, otherwise the buffer was
/// drained or the budget reached); `writev_calls` counts the calls offered
/// more than one slice; `written` is what the calls accepted.
pub open spec fn flush_log_ok(
    calls: Seq<WriteCall>,
    p: Seq<u8>,
    budget: FlushBudget,
    status: FlushStatus,
    written: usize,
    syscalls: u64,
    writev_calls: u64,
) -> bool {
    &&& calls.len() == syscalls
    &&& multi_slice_calls(calls) == writev_calls
    &&& accepted_total(calls) == written
    &&& forall|i: int| 0 <= i < calls.len() ==> #[trigger] call_ok(calls, i, p, budget)
    &&& forall|i: int| 0 <= i < calls.len() - 1 ==> ((#[trigger] calls[i]).1 matches Ok(n) && n > 0)
    &&& calls.len() > 0 && calls.last().1 is Err ==> status == error_status(calls.last().1->Err_0)
    &&& calls.len() > 0 && calls.last().1 == Ok::<usize, KernelError>(0) ==> status == FlushStatus::WouldBlock
    &&& (calls.len() == 0 || (calls.last().1 matches Ok(n) && n > 0))
        ==> (status == FlushStatus::Drained || status == FlushStatus::Limited)
}

/// What the backend's log gained for one call `c` of a flush: the call
/// itself when it was offered one slice, else what one vectored write leaves
/// (`vectored_log_ok`).
pub open spec fn call_realized(e: Seq<WriteCall>, c: WriteCall) -> bool {
    if c.0.len() == 1 {
        e == seq![c]
    } else {
        vectored_log_ok(e, c.0, c.1)
    }
}

/// The backend's log gained `d` over the calls `calls` of a flush: `d`
/// splits, in order, into one part per call as `call_realized` says.
pub open spec fn log_realizes(d: Seq<WriteCall>, calls: Seq<WriteCall>) -> bool
    decreases calls.len(),
{
    if calls.len() == 0 {
        d.len() == 0
    } else {
        exists|k: int|
            #![trigger d.take(k)]
            0 <= k <= d.len() && log_realizes(d.take(k), calls.drop_last()) && call_realized(d.skip(k), calls.last())
    }
}

/// One more call, realized by what the log gained for it, extends the
/// realization.
proof fn lemma_realizes_push(d: Seq<WriteCall>, calls: Seq<WriteCall>, e: Seq<WriteCall>, c: WriteCall)
    requires
        log_realizes(d, calls),
        call_realized(e, c),
    ensures
        log_realizes(d + e, calls.push(c)),
{
    let d2 = d + e;
    let c2 = calls.push(c);
    assert(d2.take(d.len() as int) =~= d);
    assert(d2.skip(d.len() as int) =~= e);
    assert(c2.drop_last() =~= calls);
    assert(c2.last() == c);
    let k = d.len() as int;
    assert(log_realizes(d2.take(k), c2.drop_last()));
    assert(call_realized(d2.skip(k), c2.last()));
    assert(c2.len() > 0);
    assert(0 <= k <= d2.len() && log_realizes(d2.take(k), c2.drop_last())
        && call_realized(d2.skip(k), c2.last()));
}

/// Appending a call keeps what held of the earlier ones and adds to the totals.
proof fn lemma_log_push(calls: Seq<WriteCall>, c: WriteCall, p: Seq<u8>, budget: FlushBudget)
    requires
        forall|i: int| 0 <= i < calls.len() ==> #[trigger] call_ok(calls, i, p, budget),
    ensures
        forall|i: int| 0 <= i < calls.len() ==> #[trigger] call_ok(calls.push(c), i, p, budget),
        accepted_total(calls.push(c)) == accepted_total(calls) + accepted(c),
        multi_slice_calls(calls.push(c)) == multi_slice_calls(calls) + (if c.0.len() > 1 { 1int } else { 0int }),
        calls.push(c).take(calls.len() as int) == calls,
        calls.push(c)[calls.len() as int] == c,
{
    let q = calls.push(c);
    assert(q.drop_last() =~= calls);
    assert forall|i: int| 0 <= i < calls.len() implies #[trigger] call_ok(q, i, p, budget) by {
        assert(q.take(i) =~= calls.take(i));
        assert(q[i] == calls[i]);
        assert(call_ok(calls, i, p, budget));
    }
    assert(q.take(calls.len() as int) =~= calls);
}

/// Netty-style outbound buffer with high/low watermarks.
///
/// Writability flips to `false` when the pending bytes reach `high` and back
/// to `true` when they fall to `low`; in between it keeps its state.
pub struct OutboundBuffer {
    q: VecDeque<OutboundFrame>,
    head_seg: usize,
    head_off: usize,
    bytes_total: usize,
    high: usize,
    low: usize,
    writable: bool,
    last_calls: Ghost<Seq<WriteCall>>,
}

impl View for OutboundBuffer {
    type V = Seq<Seq<u8>>;

    /// The pending bytes of each queued frame: the front frame from the
    /// write position on, the others whole.
    closed spec fn view(&self) -> Seq<Seq<u8>> {
        let fs = self.frames();
        if fs.len() == 0 {
            Seq::empty()
        } else {
            seq![rest_of(fs[0], self.head_seg as int, self.head_off as int)] + frame_totals(fs.skip(1))
        }
    }
}

impl OutboundBuffer {
    closed spec fn frames(&self) -> Seq<Seq<Seq<u8>>> {
        self.q@.map_values(|f: OutboundFrame| f@)
    }

    /// The high watermark.
    pub closed spec fn high_mark(&self) -> int {
        self.high as int
    }

    /// The low watermark.
    pub closed spec fn low_mark(&self) -> int {
        self.low as int
    }

    /// The writability flag.
    pub closed spec fn writable(&self) -> bool {
        self.writable
    }

    /// The backend write calls of the most recent flush, in order.
    pub closed spec fn last_flush(&self) -> Seq<WriteCall> {
        self.last_calls@
    }

    /// The segments ahead of the write position: the front segment from the
    /// write offset on, then every later segment.
    closed spec fn seg_view(&self) -> Seq<Seq<u8>> {
        seg_tail(self.frames(), 0, self.head_seg as int, self.head_off as int)
    }

    /// The non-empty pending pieces of the queued segments, in write order:
    /// what a flush hands the backend, slice by slice.
    pub closed spec fn pending_segs(&self) -> Seq<Seq<u8>> {
        nonempty_segs(self.seg_view())
    }

    /// All pending bytes, in write order.
    pub open spec fn pending(&self) -> Seq<u8> {
        concat(self@)
    }

    /// Queue and write position are consistent.
    closed spec fn shape_ok(&self) -> bool {
        let fs = self.frames();
        &&& forall|i: int| 0 <= i < self.q@.len() ==> #[trigger] self.q@[i].wf()
        &&& self.q@.len() == 0 ==> self.head_seg == 0 && self.head_off == 0
        &&& self.q@.len() > 0 ==> {
            &&& self.head_seg <= fs[0].len()
            &&& self.head_seg < fs[0].len() ==> self.head_off <= fs[0][self.head_seg as int].len()
            &&& self.head_seg == fs[0].len() ==> self.head_off == 0
        }
    }

    /// The write position points at a pending byte of the front frame.
    closed spec fn normalized(&self) -> bool {
        let fs = self.frames();
        self.q@.len() > 0 ==> self.head_seg < fs[0].len() && self.head_off < fs[0][self.head_seg as int].len()
    }

    /// Structural invariant, with the cached byte count and the watermark
    /// hysteresis.
    pub closed spec fn wf(&self) -> bool {
        &&& self.shape_ok()
        &&& self.bytes_total as int == concat(self@).len()
        &&& self.high >= 1
        &&& self.low <= self.high
        &&& self.bytes_total >= self.high ==> !self.writable
        &&& (self.bytes_total < self.high && self.bytes_total <= self.low) ==> self.writable
    }

    /// The pending bytes are those from the write position on.
    proof fn lemma_view_bytes(&self)
        requires
            self.shape_ok(),
        ensures
            concat(self@) == tail_from(self.frames(), 0, self.head_seg as int, self.head_off as int),
            self@.len() == self.q@.len(),
    {
        let fs = self.frames();
        if fs.len() > 0 {
            lemma_concat_push_front(
                rest_of(fs[0], self.head_seg as int, self.head_off as int),
                frame_totals(fs.skip(1)),
            );
        } else {
            assert(self@ =~= Seq::<Seq<u8>>::empty());
        }
    }

    /// The pending segments carry exactly the pending bytes.
    pub proof fn lemma_pending_segs_bytes(&self)
        requires
            self.wf(),
        ensures
            concat(self.pending_segs()) == concat(self@),
    {
        self.lemma_view_bytes();
        lemma_nonempty_bytes(self.seg_view());
        lemma_seg_tail_bytes(self.frames(), 0, self.head_seg as int, self.head_off as int);
    }

    /// A normalized, non-empty buffer has a pending byte in front.
    proof fn lemma_normalized_front(&self)
        requires
            self.shape_ok(),
            self.normalized(),
            self.q@.len() > 0,
        ensures
            self@[0].len() > 0,
            concat(self@).len() > 0,
    {
        let fs = self.frames();
        lemma_concat_push_front(
            rest_of(fs[0], self.head_seg as int, self.head_off as int),
            frame_totals(fs.skip(1)),
        );
    }

    /// An empty buffer with watermarks `high.max(1)` and `low.min(high)`.
    pub fn new(high: usize, low: usize) -> (b: Self)
        ensures
            b.wf(),
            b@ == Seq::<Seq<u8>>::empty(),
            b.high_mark() == (if high > 1 { high as int } else { 1 }),
            b.low_mark() == (if low < high { low as int } else { high as int }),
            b.writable(),
            b.last_flush() == Seq::<WriteCall>::empty(),
            b.pending_segs() == Seq::<Seq<u8>>::empty(),
    {
        let h = if high > 1 { high } else { 1 };
        let l = if low < high { low } else { high };
        let b = OutboundBuffer {
            q: VecDeque::new(),
            head_seg: 0,
            head_off: 0,
            bytes_total: 0,
            high: h,
            low: l,
            writable: true,
            last_calls: Ghost(Seq::empty()),
        };
        proof {
            assert(b.frames() =~= Seq::<Seq<Seq<u8>>>::empty());
            assert(b@ =~= Seq::<Seq<u8>>::empty());
        }
        b
    }

    /// No frame is queued.
    pub fn is_empty(&self) -> (r: bool)
        requires
            self.wf(),
        ensures
            r == (self@.len() == 0),
    {
        proof { self.lemma_view_bytes(); }
        self.q.len() == 0
    }

    /// Number of pending bytes.
    pub fn bytes_total(&self) -> (n: usize)
        requires
            self.wf(),
        ensures
            n as int == concat(self@).len(),
    {
        self.bytes_total
    }

    pub fn is_writable(&self) -> (r: bool)
        ensures
            r == self.writable(),
    {
        self.writable
    }

    fn recompute_writability(&mut self) -> (wc: WritabilityChange)
        ensures
            final(self).q == old(self).q,
            final(self).head_seg == old(self).head_seg,
            final(self).head_off == old(self).head_off,
            final(self).bytes_total == old(self).bytes_total,
            final(self).high == old(self).high,
            final(self).low == old(self).low,
            final(self).writable == next_writable(old(self).writable, old(self).bytes_total as int,
                old(self).high as int, old(self).low as int),
            final(self).last_calls == old(self).last_calls,
            wc == writability_change_spec(old(self).writable, final(self).writable, old(self).bytes_total as int),
    {
        let prev = self.writable;
        if self.bytes_total >= self.high {
            self.writable = false;
        } else if self.bytes_total <= self.low {
            self.writable = true;
        }
        if prev && !self.writable {
            WritabilityChange::BecameUnwritable { pending_bytes: self.bytes_total }
        } else if !prev && self.writable {
            WritabilityChange::BecameWritable { pending_bytes: self.bytes_total }
        } else {
            WritabilityChange::Unchanged
        }
    }

    /// Queue a frame behind the pending ones and recompute writability.
    pub fn enqueue(&mut self, frame: OutboundFrame) -> (wc: WritabilityChange)
        requires
            old(self).wf(),
            frame.wf(),
            concat(old(self)@).len() + frame_bytes(frame@).len() <= usize::MAX,
        ensures
            final(self).wf(),
            final(self)@ == old(self)@.push(frame_bytes(frame@)),
            final(self).high_mark() == old(self).high_mark(),
            final(self).low_mark() == old(self).low_mark(),
            final(self).writable() == next_writable(old(self).writable(), concat(final(self)@).len() as int,
                old(self).high_mark(), old(self).low_mark()),
            wc == writability_change_spec(old(self).writable(), final(self).writable(),
                concat(final(self)@).len() as int),
            final(self).last_flush() == old(self).last_flush(),
            final(self).pending_segs() == old(self).pending_segs() + nonempty_segs(frame@),
    {
        let ghost old_view = self@;
        let ghost old_segs = self.seg_view();
        let ghost fs0 = self.frames();
        let ghost fb = frame@;
        proof { frame.lemma_wf_shape(); }
        let n = frame.len();
        self.bytes_total = self.bytes_total.saturating_add(n);
        self.q.push_back(frame);
        proof {
            let fs = self.frames();
            assert(fs =~= fs0.push(fb));
            if fs0.len() == 0 {
                lemma_rest_start(fb);
                assert(fs.skip(1) =~= Seq::<Seq<Seq<u8>>>::empty());
                assert(frame_totals(fs.skip(1)) =~= Seq::<Seq<u8>>::empty());
                assert(self@ =~= old_view.push(concat(fb)));
            } else {
                assert(fs[0] == fs0[0]);
                assert(fs.skip(1) =~= fs0.skip(1).push(fb));
                assert(frame_totals(fs.skip(1)) =~= frame_totals(fs0.skip(1)).push(concat(fb)));
                assert(self@ =~= old_view.push(concat(fb)));
            }
            assert(self@.drop_last() =~= old_view);
            assert forall|i: int| 0 <= i < self.q@.len() implies #[trigger] self.q@[i].wf() by {
                if i < fs0.len() {
                    assert(self.q@[i] == old(self).q@[i]);
                }
            }
            if fs0.len() == 0 {
                assert(fb[0].skip(0) =~= fb[0]);
                assert(seq![fb[0].skip(0)] + fb.skip(1) =~= fb);
                assert(fs.skip(1) =~= Seq::<Seq<Seq<u8>>>::empty());
                assert(old_segs =~= Seq::<Seq<u8>>::empty());
                assert(self.seg_view() =~= old_segs + fb);
            } else {
                fs0.skip(1).lemma_flatten_push(fb);
                assert(fs.skip(1) =~= fs0.skip(1).push(fb));
                assert(self.seg_view() =~= old_segs + fb);
            }
            lemma_nonempty_add(old_segs, fb);
        }
        self.recompute_writability()
    }

    /// Drop completed frames and step over exhausted segments, so that the
    /// write position points at a pending byte or the queue is empty.
    fn prune_head(&mut self)
        requires
            old(self).shape_ok(),
        ensures
            final(self).shape_ok(),
            final(self).normalized(),
            final(self).bytes_total == old(self).bytes_total,
            final(self).high == old(self).high,
            final(self).low == old(self).low,
            final(self).writable == old(self).writable,
            concat(final(self)@) == concat(old(self)@),
            trimmed_from(final(self)@, old(self)@),
            final(self).last_calls == old(self).last_calls,
            final(self).pending_segs() == old(self).pending_segs(),
    {
        let ghost v0 = self@;
        proof { lemma_trimmed_refl(v0); }
        loop
            invariant
                self.last_calls == old(self).last_calls,
                self.pending_segs() == old(self).pending_segs(),
                self.shape_ok(),
                self.bytes_total == old(self).bytes_total,
                self.high == old(self).high,
                self.low == old(self).low,
                self.writable == old(self).writable,
                v0 == old(self)@,
                concat(self@) == concat(v0),
                trimmed_from(self@, v0),
            decreases self.q@.len(), 5 - self.head_seg,
        {
            if self.q.len() == 0 {
                return;
            }
            let ghost fs = self.frames();
            let ghost before = self@;
            let ghost segs_before = self.seg_view();
            proof {
                assert(self.q@[0].wf());
                self.q@[0].lemma_wf_shape();
                assert(fs[0] == self.q@[0]@);
                assert forall|j: int| 0 <= j < fs.len() implies #[trigger] fs[j].len() >= 1 by {
                    assert(self.q@[j].wf());
                    self.q@[j].lemma_wf_shape();
                    assert(fs[j] == self.q@[j]@);
                }
            }
            let cnt = self.q[0].seg_count();
            if self.head_seg >= cnt {
                let ghost q0 = self.q@;
                let _ = self.q.pop_front();
                self.head_seg = 0;
                self.head_off = 0;
                proof {
                    assert(self.q@ =~= q0.subrange(1, q0.len() as int));
                    let fs2 = self.frames();
                    assert(fs2 =~= fs.skip(1));
                    assert forall|i: int| 0 <= i < self.q@.len() implies #[trigger] self.q@[i].wf() by {
                        assert(self.q@[i] == q0[i + 1]);
                    }
                    assert(rest_of(fs[0], fs[0].len() as int, 0) =~= Seq::<u8>::empty());
                    assert(before =~= seq![Seq::<u8>::empty()] + frame_totals(fs.skip(1)));
                    lemma_concat_push_front(Seq::<u8>::empty(), frame_totals(fs.skip(1)));
                    assert(Seq::<u8>::empty() + concat(frame_totals(fs.skip(1)))
                        =~= concat(frame_totals(fs.skip(1))));
                    if fs2.len() > 0 {
                        self.q@[0].lemma_wf_shape();
                        assert(fs2[0] == self.q@[0]@);
                        lemma_rest_start(fs2[0]);
                        assert(fs2.skip(1) =~= fs.skip(2));
                        assert(self@ =~= frame_totals(fs.skip(1)));
                        assert(before[1] == concat(fs[1]));
                        assert(before[1].skip(0) =~= before[1]);
                        assert(self@ =~= seq![before[1].skip(0)] + before.skip(2));
                        assert(trimmed_from(self@, before));
                    } else {
                        assert(self@ =~= Seq::<Seq<u8>>::empty());
                        assert(frame_totals(fs.skip(1)) =~= Seq::<Seq<u8>>::empty());
                    }
                    assert(concat(self@) == concat(before));
                    lemma_trimmed_trans(self@, before, v0);
                    lemma_seg_tail_next_frame(fs, 0);
                    if fs2.len() > 0 {
                        assert(fs2[0] == fs[1]);
                        assert(fs2.skip(1) =~= fs.skip(2));
                    }
                    assert(self.seg_view() =~= seg_tail(fs, 1, 0, 0));
                }
            } else {
                let seg_len = self.q[0].seg_len(self.head_seg);
                if self.head_off >= seg_len {
                    proof {
                        lemma_rest_next_seg(fs[0], self.head_seg as int, self.head_off as int);
                        assert(fs[0][self.head_seg as int].skip(self.head_off as int) =~= Seq::<u8>::empty());
                        lemma_seg_tail_next_seg(fs, 0, self.head_seg as int, self.head_off as int);
                        lemma_nonempty_push_front(fs[0][self.head_seg as int].skip(self.head_off as int),
                            seg_tail(fs, 0, self.head_seg + 1, 0));
                    }
                    self.head_seg = self.head_seg + 1;
                    self.head_off = 0;
                    proof {
                        assert(self.frames() == fs);
                        assert(self@ =~= before);
                    }
                } else {
                    return;
                }
            }
        }
    }

    /// Account for `written` bytes taken by the backend: drop them from the
    /// front, then normalize the write position.
    fn advance_after_write(&mut self, written: usize)
        requires
            old(self).shape_ok(),
            old(self).normalized(),
            old(self).bytes_total as int == concat(old(self)@).len(),
            written <= concat(old(self)@).len(),
        ensures
            final(self).shape_ok(),
            final(self).normalized(),
            final(self).bytes_total as int == concat(final(self)@).len(),
            final(self).high == old(self).high,
            final(self).low == old(self).low,
            final(self).writable == old(self).writable,
            concat(final(self)@) == concat(old(self)@).skip(written as int),
            trimmed_from(final(self)@, old(self)@),
            final(self).last_calls == old(self).last_calls,
            final(self).pending_segs() == drop_front(old(self).pending_segs(), written as int),
    {
        let ghost v0 = self@;
        let ghost p0 = concat(v0);
        let ghost s0 = self.pending_segs();
        self.bytes_total = self.bytes_total - written;
        let mut left = written;
        proof {
            lemma_trimmed_refl(v0);
            assert(p0.skip(0) =~= p0);
        }
        while left > 0
            invariant
                self.last_calls == old(self).last_calls,
                self.shape_ok(),
                self.normalized(),
                self.high == old(self).high,
                self.low == old(self).low,
                self.writable == old(self).writable,
                v0 == old(self)@,
                p0 == concat(v0),
                written <= p0.len(),
                left <= written,
                self.bytes_total as int == p0.len() - written,
                concat(self@) == p0.skip(written - left),
                trimmed_from(self@, v0),
                s0 == old(self).pending_segs(),
                self.pending_segs() == drop_front(s0, written - left),
            decreases left,
        {
            proof {
                self.lemma_view_bytes();
                if self.q@.len() == 0 {
                    assert(self@ =~= Seq::<Seq<u8>>::empty());
                    assert(concat(Seq::<Seq<u8>>::empty()) == Seq::<u8>::empty());
                    assert(p0.skip(written - left).len() > 0);
                }
            }
            let ghost fs = self.frames();
            let ghost before = self@;
            proof { assert(fs[0] == self.q@[0]@); }
            let seg_len = self.q[0].seg_len(self.head_seg);
            let avail = seg_len - self.head_off;
            let take = if left < avail { left } else { avail };
            let ghost off0 = self.head_off as int;
            let ghost segs_before = self.pending_segs();
            self.head_off = self.head_off + take;
            left = left - take;
            proof {
                let hs = self.head_seg as int;
                let x = fs[0][hs].skip(off0);
                let rr = seg_tail(fs, 0, hs + 1, 0);
                assert(self.frames() == fs);
                assert(x.len() == avail);
                assert(take > 0);
                assert(drop_front(nonempty_segs(rr), 0) == nonempty_segs(rr));
                lemma_seg_tail_next_seg(fs, 0, hs, off0);
                lemma_seg_tail_next_seg(fs, 0, hs, off0 + take);
                lemma_nonempty_push_front(x, rr);
                assert(fs[0][hs].skip(off0 + take) =~= x.skip(take as int));
                lemma_nonempty_push_front(x.skip(take as int), rr);
                let ne = seq![x] + nonempty_segs(rr);
                assert(ne[0] == x);
                assert(ne.skip(1) =~= nonempty_segs(rr));
                if take as int == x.len() {
                    assert(x.skip(take as int) =~= Seq::<u8>::empty());
                }
                assert(self.pending_segs() == drop_front(segs_before, take as int));
                lemma_drop_front_add(s0, written - (left + take), take as int);
                lemma_rest_advance(fs[0], hs, off0, take as int);
                let r = rest_of(fs[0], hs, off0);
                let t = frame_totals(fs.skip(1));
                assert(self.frames() == fs);
                assert(self@ =~= seq![r.skip(take as int)] + t);
                assert(before =~= seq![r] + t);
                lemma_concat_push_front(r, t);
                lemma_concat_push_front(r.skip(take as int), t);
                assert(r.skip(take as int) + concat(t) =~= (r + concat(t)).skip(take as int));
                assert(p0.skip(written - (left + take)).skip(take as int) =~= p0.skip(written - left));
                assert(before[0] == r);
                assert(self@ =~= seq![before[0].skip(take as int)] + before.skip(1));
                assert(trimmed_from(self@, before));
                lemma_trimmed_trans(self@, before, v0);
            }
            let ghost mid = self@;
            self.prune_head();
            proof { lemma_trimmed_trans(self@, mid, v0); }
        }
        proof { assert(p0.skip(written - left) == p0.skip(written as int)); }
    }

    /// Collect up to `max_iov` non-empty slices of pending bytes, in order,
    /// starting at the write position.
    fn gather_iov(&self, max_iov: usize) -> (bufs: Vec<&[u8]>)
        requires
            self.shape_ok(),
            self.normalized(),
            self.q@.len() > 0,
            1 <= max_iov,
        ensures
            1 <= bufs@.len() <= max_iov,
            1 <= iov_total(bufs@) <= concat(self@).len(),
            slices_bytes(bufs@) == concat(self@).take(iov_total(bufs@)),
            forall|j: int| 0 <= j < bufs@.len() ==> (#[trigger] bufs@[j])@.len() > 0,
            slice_views(bufs@) == iov_of(self.pending_segs(), max_iov as int),
    {
        let ghost fs = self.frames();
        let ghost all = concat(self@);
        let ghost ps = self.pending_segs();
        proof {
            self.lemma_view_bytes();
            assert forall|j: int| 0 <= j < fs.len() implies #[trigger] fs[j].len() >= 1 by {
                assert(self.q@[j].wf());
                self.q@[j].lemma_wf_shape();
                assert(fs[j] == self.q@[j]@);
            }
            assert(concat(Seq::<Seq<u8>>::empty()) == Seq::<u8>::empty());
        }
        let mut bufs: Vec<&[u8]> = Vec::new();
        let mut fi: usize = 0;
        let mut si: usize = self.head_seg;
        let mut off: usize = self.head_off;
        proof {
            assert(bufs@.map_values(|b: &[u8]| b@) =~= Seq::<Seq<u8>>::empty());
            assert(Seq::<u8>::empty() + all =~= all);
            assert(slice_views(bufs@) + ps =~= ps);
        }
        while bufs.len() < max_iov && fi < self.q.len()
            invariant
                self.shape_ok(),
                self.normalized(),
                fs == self.frames(),
                all == concat(self@),
                all == tail_from(fs, 0, self.head_seg as int, self.head_off as int),
                forall|j: int| 0 <= j < fs.len() ==> #[trigger] fs[j].len() >= 1,
                fs.len() == self.q@.len(),
                1 <= max_iov,
                bufs@.len() <= max_iov,
                fi <= fs.len(),
                fi < fs.len() ==> si <= fs[fi as int].len(),
                fi < fs.len() && si < fs[fi as int].len() ==> off <= fs[fi as int][si as int].len(),
                fi < fs.len() && si == fs[fi as int].len() ==> off == 0,
                slices_bytes(bufs@) + tail_from(fs, fi as int, si as int, off as int) == all,
                bufs@.len() == 0 ==> fi == 0 && si == self.head_seg && off == self.head_off,
                bufs@.len() > 0 ==> slices_bytes(bufs@).len() > 0,
                forall|j: int| 0 <= j < bufs@.len() ==> (#[trigger] bufs@[j])@.len() > 0,
                ps == self.pending_segs(),
                ps == slice_views(bufs@) + nonempty_segs(seg_tail(fs, fi as int, si as int, off as int)),
            decreases fs.len() - fi, max_iov - bufs@.len(),
        {
            let frame = &self.q[fi];
            proof { assert(fs[fi as int] == frame@); }
            let cnt = frame.seg_count();
            while si < cnt && bufs.len() < max_iov
                invariant
                    fs == self.frames(),
                    all == concat(self@),
                    self.shape_ok(),
                    self.normalized(),
                    all == tail_from(fs, 0, self.head_seg as int, self.head_off as int),
                    fs.len() == self.q@.len(),
                    fi < fs.len(),
                    fs[fi as int] == frame@,
                    frame.wf(),
                    cnt as int == frame@.len(),
                    si <= cnt,
                    si < cnt ==> off <= fs[fi as int][si as int].len(),
                    si == cnt ==> off == 0,
                    bufs@.len() <= max_iov,
                    slices_bytes(bufs@) + tail_from(fs, fi as int, si as int, off as int) == all,
                    bufs@.len() == 0 ==> fi == 0 && si == self.head_seg && off == self.head_off,
                    bufs@.len() > 0 ==> slices_bytes(bufs@).len() > 0,
                    forall|j: int| 0 <= j < bufs@.len() ==> (#[trigger] bufs@[j])@.len() > 0,
                    ps == slice_views(bufs@) + nonempty_segs(seg_tail(fs, fi as int, si as int, off as int)),
                decreases cnt - si,
            {
                let slice = frame.seg_slice_from(si, off);
                let ghost prev = bufs@;
                proof {
                    lemma_seg_tail_next_seg(fs, fi as int, si as int, off as int);
                    lemma_nonempty_push_front(fs[fi as int][si as int].skip(off as int),
                        seg_tail(fs, fi as int, si + 1, 0));
                    lemma_tail_next_seg(fs, fi as int, si as int, off as int);
                    if off as int == fs[fi as int][si as int].len() {
                        assert(fs[fi as int][si as int].skip(off as int) =~= Seq::<u8>::empty());
                    }
                    assert(slice@ == fs[fi as int][si as int].skip(off as int));
                }
                if slice.len() > 0 {
                    bufs.push(slice);
                    proof {
                        lemma_slices_take_next(bufs@, prev.len() as int);
                        assert(bufs@.take(prev.len() as int) =~= prev);
                        assert(bufs@.take(bufs@.len() as int) =~= bufs@);
                        assert(slice_views(bufs@) =~= slice_views(prev).push(slice@));
                        assert(ps =~= slice_views(bufs@) + nonempty_segs(seg_tail(fs, fi as int, si + 1, 0)));
                    }
                } else {
                    proof { assert(slice@ =~= Seq::<u8>::empty()); }
                }
                proof {
                    assert(slices_bytes(bufs@) + tail_from(fs, fi as int, si + 1, 0) =~= all);
                }
                si = si + 1;
                off = 0;
            }
            if si >= cnt {
                proof {
                    lemma_tail_next_frame(fs, fi as int);
                    lemma_seg_tail_next_frame(fs, fi as int);
                }
                fi = fi + 1;
                si = 0;
                off = 0;
            }
        }
        proof {
            if fi as int >= fs.len() {
                assert(tail_from(fs, fi as int, si as int, off as int) =~= Seq::<u8>::empty());
                assert(slices_bytes(bufs@) + Seq::<u8>::empty() =~= slices_bytes(bufs@));
            }
            let sb = slices_bytes(bufs@);
            assert(all.take(sb.len() as int) =~= sb);
            let rest = nonempty_segs(seg_tail(fs, fi as int, si as int, off as int));
            if fi as int >= fs.len() {
                assert(rest =~= Seq::<Seq<u8>>::empty());
                assert(ps =~= slice_views(bufs@));
            } else {
                assert(bufs@.len() == max_iov);
                assert(ps.take(max_iov as int) =~= slice_views(bufs@));
                if ps.len() == max_iov {
                    assert(ps =~= slice_views(bufs@));
                }
            }
        }
        bufs
    }

    /// Drain as much as possible into `io`, bounded by a fairness budget.
    ///
    /// Returns `(status, bytes_written, syscalls, writev_calls,
    /// writability_change)`. Each call hands the backend the next
    /// `iov_cap(budget.max_iov)` pending segments (or all that are left):
    /// one slice through `try_write`, several through `try_write_vectored`.
    /// The calls are recorded in `last_flush` and show in the backend's own
    /// call log; the bytes accepted are exactly the first `bytes_written`
    /// pending bytes, in order, and they leave the buffer.
    pub fn flush_into<I: IoOps + ?Sized>(&mut self, io: &mut I, budget: FlushBudget) -> (r: (
        FlushStatus,
        usize,
        u64,
        u64,
        WritabilityChange,
    ))
        requires
            old(self).wf(),
        ensures
            final(self).wf(),
            final(self).high_mark() == old(self).high_mark(),
            final(self).low_mark() == old(self).low_mark(),
            r.1 <= concat(old(self)@).len(),
            concat(final(self)@) == concat(old(self)@).skip(r.1 as int),
            final(io).written() == old(io).written() + concat(old(self)@).take(r.1 as int),
            trimmed_from(final(self)@, old(self)@),
            final(self)@.len() > 0 ==> final(self)@[0].len() > 0,
            (r.0 == FlushStatus::Drained) == (final(self)@.len() == 0),
            r.0 == FlushStatus::Limited ==> r.1 >= budget.max_bytes || r.2 >= budget.max_syscalls,
            r.2 <= budget.max_syscalls,
            r.3 <= r.2,
            final(self).writable() == next_writable(old(self).writable(), concat(final(self)@).len() as int,
                old(self).high_mark(), old(self).low_mark()),
            r.4 == writability_change_spec(old(self).writable(), final(self).writable(),
                concat(final(self)@).len() as int),
            flush_log_ok(final(self).last_flush(), concat(old(self)@), budget, r.0, r.1, r.2, r.3),
            log_extends(final(io).write_log(), old(io).write_log()),
            log_realizes(final(io).write_log().skip(old(io).write_log().len() as int), final(self).last_flush()),
            forall|i: int| 0 <= i < final(self).last_flush().len()
                ==> #[trigger] call_segs_ok(final(self).last_flush(), i, old(self).pending_segs(), budget),
    {
        let ghost v0 = self@;
        let ghost s0 = self.pending_segs();
        let ghost l0 = io.write_log();
        let ghost p0 = concat(v0);
        let ghost w0 = io.written();
        let mut total: usize = 0;
        let mut syscalls: u64 = 0;
        let mut writev_calls: u64 = 0;
        self.prune_head();
        proof {
            assert(p0.skip(0) =~= p0);
            assert(p0.take(0) =~= Seq::<u8>::empty());
            assert(w0 + Seq::<u8>::empty() =~= w0);
            self.last_calls = Ghost(Seq::empty());
            assert(io.write_log().take(l0.len() as int) =~= l0);
            assert(io.write_log().skip(l0.len() as int) =~= Seq::<WriteCall>::empty());
        }
        while self.q.len() > 0
            invariant
                l0 == old(io).write_log(),
                log_extends(io.write_log(), l0),
                s0 == old(self).pending_segs(),
                self.pending_segs() == drop_front(s0, total as int),
                forall|i: int| 0 <= i < self.last_calls@.len()
                    ==> #[trigger] call_segs_ok(self.last_calls@, i, s0, budget),
                log_realizes(io.write_log().skip(l0.len() as int), self.last_calls@),
                self.last_calls@.len() == syscalls,
                multi_slice_calls(self.last_calls@) == writev_calls,
                accepted_total(self.last_calls@) == total,
                forall|i: int| 0 <= i < self.last_calls@.len() ==> #[trigger] call_ok(self.last_calls@, i, p0, budget),
                forall|i: int| 0 <= i < self.last_calls@.len()
                    ==> ((#[trigger] self.last_calls@[i]).1 matches Ok(n) && n > 0),
                self.shape_ok(),
                self.normalized(),
                self.bytes_total as int == concat(self@).len(),
                self.high == old(self).high,
                self.low == old(self).low,
                self.writable == old(self).writable,
                old(self).wf(),
                v0 == old(self)@,
                p0 == concat(v0),
                w0 == old(io).written(),
                total <= p0.len(),
                concat(self@) == p0.skip(total as int),
                io.written() == w0 + p0.take(total as int),
                trimmed_from(self@, v0),
                writev_calls <= syscalls,
                syscalls <= budget.max_syscalls,
            decreases budget.max_syscalls - syscalls,
        {
            proof {
                self.lemma_normalized_front();
            }
            if total >= budget.max_bytes || (syscalls as usize) >= budget.max_syscalls {
                let wc = self.recompute_writability();
                return (FlushStatus::Limited, total, syscalls, writev_calls, wc);
            }
            let max_iov = if budget.max_iov < 1 {
                1
            } else if budget.max_iov > MAX_IOV_CAP {
                MAX_IOV_CAP
            } else {
                budget.max_iov
            };
            let bufs = self.gather_iov(max_iov);
            let nbuf = bufs.len();
            syscalls = syscalls + 1;
            if nbuf > 1 {
                writev_calls = writev_calls + 1;
            }
            let ghost cur = concat(self@);
            let ghost lb = io.write_log();
            let write_res = if nbuf == 1 {
                proof {
                    assert(bufs@.map_values(|b: &[u8]| b@) =~= seq![bufs@[0]@]);
                    lemma_concat_single(bufs@[0]@);
                }
                io.try_write(bufs[0])
            } else {
                io.try_write_vectored(bufs.as_slice())
            };
            proof {
                let log = self.last_calls@;
                let c: WriteCall = (bufs@.map_values(|b: &[u8]| b@), write_res);
                lemma_log_push(log, c, p0, budget);
                let q = log.push(c);
                let k = iov_total(bufs@);
                let la = io.write_log();
                let e = la.skip(lb.len() as int);
                assert(c.0 == slice_views(bufs@));
                if nbuf == 1 {
                    assert(la =~= lb + e);
                    assert(e =~= seq![c]);
                } else {
                    assert(la =~= lb + e);
                }
                assert(call_realized(e, c));
                lemma_realizes_push(lb.skip(l0.len() as int), log, e, c);
                assert(la.skip(l0.len() as int) =~= lb.skip(l0.len() as int) + e);
                assert(la.take(l0.len() as int) =~= lb.take(l0.len() as int));
                assert(cur.take(k) =~= p0.subrange(total as int, total + k));
                assert forall|j: int| 0 <= j < c.0.len() implies (#[trigger] c.0[j]).len() > 0 by {
                    assert(c.0[j] == bufs@[j]@);
                }
                assert(call_ok(q, log.len() as int, p0, budget));
                assert forall|i: int| 0 <= i < q.len() implies #[trigger] call_segs_ok(q, i, s0, budget) by {
                    if i < log.len() {
                        assert(q.take(i) =~= log.take(i));
                        assert(q[i] == log[i]);
                        assert(call_segs_ok(log, i, s0, budget));
                    } else {
                        assert(q.take(i) == log);
                    }
                }
                self.last_calls = Ghost(q);
            }
            match write_res {
                Ok(n) => {
                    proof {
                        assert(slices_bytes(bufs@).take(n as int) =~= cur.take(n as int));
                        assert(cur == p0.skip(total as int));
                        assert(p0.take(total as int) + p0.skip(total as int).take(n as int)
                            =~= p0.take(total + n));
                    }
                    if n == 0 {
                        proof { assert(p0.take(total as int) + cur.take(0) =~= p0.take(total as int)); }
                        let wc = self.recompute_writability();
                        return (FlushStatus::WouldBlock, total, syscalls, writev_calls, wc);
                    }
                    total = total + n;
                    let ghost mid = self@;
                    self.advance_after_write(n);
                    proof {
                        assert(p0.skip(total - n).skip(n as int) =~= p0.skip(total as int));
                        lemma_trimmed_trans(self@, mid, v0);
                        lemma_drop_front_add(s0, total - n, n as int);
                    }
                },
                Err(e) => {
                    let wc = self.recompute_writability();
                    match e {
                        KernelError::WouldBlock => {
                            return (FlushStatus::WouldBlock, total, syscalls, writev_calls, wc);
                        },
                        KernelError::Closed | KernelError::Eof | KernelError::Reset => {
                            return (FlushStatus::Closed, total, syscalls, writev_calls, wc);
                        },
                        _ => {
                            return (FlushStatus::Error, total, syscalls, writev_calls, wc);
                        },
                    }
                },
            }
        }
        proof {
            assert(self@.len() == 0) by { self.lemma_view_bytes(); }
        }
        let wc = self.recompute_writability();
        (FlushStatus::Drained, total, syscalls, writev_calls, wc)
    }
}

} // verus!
