//! Knuth-Morris-Pratt matching over a byte stream, specified by the longest
//! prefix of the pattern that is a suffix of the text read so far.
use vstd::prelude::*;

verus! {

/// `pat[0..k]` is a suffix of `u`.
pub open spec fn ends_with_prefix(u: Seq<u8>, pat: Seq<u8>, k: int) -> bool {
    &&& 0 <= k <= u.len()
    &&& k <= pat.len()
    &&& u.subrange(u.len() - k, u.len() as int) == pat.take(k)
}

/// The longest `k <= cap` such that `pat[0..k]` is a suffix of `u`.
pub open spec fn longest_prefix_suffix(u: Seq<u8>, pat: Seq<u8>, cap: int) -> int
    decreases cap,
{
    if cap <= 0 {
        0
    } else if ends_with_prefix(u, pat, cap) {
        cap
    } else {
        longest_prefix_suffix(u, pat, cap - 1)
    }
}

/// `lps[idx]` is the longest proper border of `pat[0..=idx]`, for `idx < n`.
pub open spec fn lps_table_ok(pat: Seq<u8>, lps: Seq<u8>, n: int) -> bool {
    &&& n <= lps.len()
    &&& forall|idx: int|
        0 <= idx < n ==> #[trigger] lps[idx] as int == longest_prefix_suffix(
            pat.subrange(1, idx + 1),
            pat,
            idx,
        )
}

/// The first end position `e >= lo` such that `t[0..e]` ends with `pat`.
pub open spec fn first_occ_end(t: Seq<u8>, pat: Seq<u8>, lo: int) -> Option<int>
    decreases t.len() + 1 - lo,
{
    if lo > t.len() || lo < 0 {
        None
    } else if ends_with_prefix(t.take(lo), pat, pat.len() as int) {
        Some(lo)
    } else {
        first_occ_end(t, pat, lo + 1)
    }
}

pub proof fn lemma_empty_prefix(u: Seq<u8>, pat: Seq<u8>)
    ensures
        ends_with_prefix(u, pat, 0),
{
    assert(u.subrange(u.len() as int, u.len() as int) =~= pat.take(0));
}

/// What `longest_prefix_suffix` returns is a suffix-prefix, and nothing
/// longer up to `cap` is.
pub proof fn lemma_lps_props(u: Seq<u8>, pat: Seq<u8>, cap: int)
    ensures
        0 <= longest_prefix_suffix(u, pat, cap),
        cap >= 0 ==> longest_prefix_suffix(u, pat, cap) <= cap,
        ends_with_prefix(u, pat, longest_prefix_suffix(u, pat, cap)),
        forall|q: int|
            longest_prefix_suffix(u, pat, cap) < q <= cap ==> !#[trigger] ends_with_prefix(u, pat, q),
    decreases cap,
{
    if cap <= 0 {
        lemma_empty_prefix(u, pat);
    } else if !ends_with_prefix(u, pat, cap) {
        lemma_lps_props(u, pat, cap - 1);
    }
}

/// A suffix-prefix with nothing longer up to `cap` is the longest one.
pub proof fn lemma_lps_unique(u: Seq<u8>, pat: Seq<u8>, cap: int, r: int)
    requires
        0 <= r <= cap,
        ends_with_prefix(u, pat, r),
        forall|q: int| r < q <= cap ==> !#[trigger] ends_with_prefix(u, pat, q),
    ensures
        longest_prefix_suffix(u, pat, cap) == r,
    decreases cap,
{
    if cap > r {
        lemma_lps_unique(u, pat, cap - 1, r);
    }
}

/// Extending the text by one byte extends a suffix-prefix by one matching byte.
pub proof fn lemma_push_step(u: Seq<u8>, pat: Seq<u8>, b: u8, k: int)
    requires
        1 <= k <= pat.len(),
    ensures
        ends_with_prefix(u.push(b), pat, k) <==> (ends_with_prefix(u, pat, k - 1) && pat[k - 1] == b),
{
    let v = u.push(b);
    if ends_with_prefix(v, pat, k) {
        assert(v.subrange(v.len() - k, v.len() as int)[k - 1] == pat.take(k)[k - 1]);
        assert(u.subrange(u.len() - (k - 1), u.len() as int) =~= v.subrange(v.len() - k, v.len() as int).take(k - 1));
        assert(pat.take(k - 1) =~= pat.take(k).take(k - 1));
    }
    if ends_with_prefix(u, pat, k - 1) && pat[k - 1] == b {
        assert(v.subrange(v.len() - k, v.len() as int) =~= u.subrange(u.len() - (k - 1), u.len() as int).push(b));
        assert(pat.take(k) =~= pat.take(k - 1).push(pat[k - 1]));
    }
}

/// Two prefixes of `pat` that are both suffixes of `u`: the shorter is a
/// border of the longer.
pub proof fn lemma_shorter_is_border(u: Seq<u8>, pat: Seq<u8>, q: int, p: int)
    requires
        0 <= q < p,
        ends_with_prefix(u, pat, q),
        ends_with_prefix(u, pat, p),
    ensures
        ends_with_prefix(pat.subrange(1, p), pat, q),
{
    let w = pat.subrange(1, p);
    assert forall|i: int| 0 <= i < q implies #[trigger] w.subrange(w.len() - q, w.len() as int)[i] == pat.take(q)[i] by {
        assert(w.subrange(w.len() - q, w.len() as int)[i] == pat[p - q + i]);
        assert(u.subrange(u.len() - p, u.len() as int)[p - q + i] == pat.take(p)[p - q + i]);
        assert(u.subrange(u.len() - q, u.len() as int)[i] == pat.take(q)[i]);
        assert(u.subrange(u.len() - p, u.len() as int)[p - q + i] == u[u.len() - q + i]);
    }
    assert(w.subrange(w.len() - q, w.len() as int) =~= pat.take(q));
}

/// Following the border table from a suffix-prefix `p` lands on the next
/// shorter suffix-prefix, skipping none.
pub proof fn lemma_border_chain(u: Seq<u8>, pat: Seq<u8>, lps: Seq<u8>, p: int)
    requires
        1 <= p <= pat.len(),
        ends_with_prefix(u, pat, p),
        lps_table_ok(pat, lps, p),
    ensures
        ends_with_prefix(u, pat, lps[p - 1] as int),
        (lps[p - 1] as int) < p,
        forall|q: int| lps[p - 1] < q < p ==> !#[trigger] ends_with_prefix(u, pat, q),
{
    let w = pat.subrange(1, p);
    let r = lps[p - 1] as int;
    assert(r == longest_prefix_suffix(w, pat, p - 1));
    lemma_lps_props(w, pat, p - 1);
    // pat[0..r] == pat[p-r..p], which is the tail of u's suffix pat[0..p].
    assert forall|i: int| 0 <= i < r implies #[trigger] u.subrange(u.len() - r, u.len() as int)[i] == pat.take(r)[i] by {
        assert(w.subrange(w.len() - r, w.len() as int)[i] == pat.take(r)[i]);
        assert(w.subrange(w.len() - r, w.len() as int)[i] == pat[p - r + i]);
        assert(u.subrange(u.len() - p, u.len() as int)[p - r + i] == pat.take(p)[p - r + i]);
    }
    assert(u.subrange(u.len() - r, u.len() as int) =~= pat.take(r));
    assert forall|q: int| r < q < p implies !#[trigger] ends_with_prefix(u, pat, q) by {
        if ends_with_prefix(u, pat, q) {
            lemma_shorter_is_border(u, pat, q, p);
        }
    }
}

/// Capping above the text length changes nothing.
pub proof fn lemma_lps_cap_len(u: Seq<u8>, pat: Seq<u8>, cap: int)
    requires
        cap >= u.len(),
    ensures
        longest_prefix_suffix(u, pat, cap) == longest_prefix_suffix(u, pat, u.len() as int),
    decreases cap,
{
    if cap > u.len() {
        lemma_lps_cap_len(u, pat, cap - 1);
    }
}

/// Advance the matcher by one byte: from the longest proper suffix-prefix of
/// `u`, compute the longest suffix-prefix (up to the full pattern) of `u + b`.
pub fn kmp_advance(pat: &[u8], lps: &[u8], matched: usize, b: u8, Ghost(u): Ghost<Seq<u8>>) -> (r: usize)
    requires
        1 <= pat@.len(),
        matched < pat@.len(),
        lps_table_ok(pat@, lps@, matched as int),
        matched as int == longest_prefix_suffix(u, pat@, pat@.len() - 1),
    ensures
        r as int == longest_prefix_suffix(u.push(b), pat@, pat@.len() as int),
        r <= pat@.len(),
{
    let ghost m = pat@.len() as int;
    proof { lemma_lps_props(u, pat@, m - 1); }
    let mut k = matched;
    while k > 0 && b != pat[k]
        invariant
            k <= matched < m,
            m == pat@.len(),
            lps_table_ok(pat@, lps@, matched as int),
            matched as int == longest_prefix_suffix(u, pat@, m - 1),
            ends_with_prefix(u, pat@, k as int),
            forall|q: int| k < q <= matched ==> !#[trigger] ends_with_prefix(u, pat@, q) || pat@[q] != b,
        decreases k,
    {
        proof {
            lemma_border_chain(u, pat@, lps@, k as int);
        }
        k = lps[k - 1] as usize;
    }
    let r = if b == pat[k] { k + 1 } else { 0 };
    proof {
        let v = u.push(b);
        if r > 0 {
            lemma_push_step(u, pat@, b, r as int);
        } else {
            lemma_empty_prefix(v, pat@);
        }
        assert forall|q: int| r < q <= m implies !#[trigger] ends_with_prefix(v, pat@, q) by {
            lemma_push_step(u, pat@, b, q);
            if ends_with_prefix(u, pat@, q - 1) && pat@[q - 1] == b {
                assert(q - 1 <= m - 1);
                if q - 1 > matched {
                } else if q - 1 > k {
                } else {
                    assert(q - 1 == k);
                }
            }
        }
        lemma_lps_unique(v, pat@, m, r as int);
    }
    r
}

} // verus!

verus! {

/// The border table of `pat`: entry `i` is the length of the longest proper
/// border of `pat[0..=i]`.
pub fn build_lps(pat: &[u8]) -> (lps: Vec<u8>)
    requires
        1 <= pat@.len() <= 255,
    ensures
        lps@.len() == pat@.len(),
        lps_table_ok(pat@, lps@, pat@.len() as int),
{
    let m = pat.len();
    let mut lps: Vec<u8> = Vec::with_capacity(m);
    lps.push(0u8);
    proof {
        let w = pat@.subrange(1, 1);
        lemma_lps_props(w, pat@, 0);
    }
    let mut len: usize = 0;
    let mut i: usize = 1;
    while i < m
        invariant
            1 <= i <= m,
            m == pat@.len() <= 255,
            lps@.len() == i,
            lps_table_ok(pat@, lps@, i as int),
            len as int == lps@[i - 1] as int,
        decreases m - i,
    {
        let ghost u = pat@.subrange(1, i as int);
        proof {
            // lps[i-1] is the longest suffix-prefix of pat[1..i] below length i.
            lemma_lps_cap_len(u, pat@, (m - 1) as int);
            lemma_lps_props(u, pat@, (i - 1) as int);
            assert(lps_table_ok(pat@, lps@, len as int));
        }
        len = kmp_advance(pat, lps.as_slice(), len, pat[i], Ghost(u));
        proof {
            let v = u.push(pat@[i as int]);
            assert(v =~= pat@.subrange(1, i + 1));
            lemma_lps_cap_len(v, pat@, m as int);
            lemma_lps_props(v, pat@, i as int);
        }
        lps.push(len as u8);
        i = i + 1;
        proof {
            assert forall|idx: int| 0 <= idx < i implies #[trigger] lps@[idx] as int == longest_prefix_suffix(
                pat@.subrange(1, idx + 1), pat@, idx) by {
            }
        }
    }
    lps
}

} // verus!

verus! {

/// `t[0..e]` ends with the whole pattern.
pub open spec fn occ_at(t: Seq<u8>, pat: Seq<u8>, e: int) -> bool {
    ends_with_prefix(t.take(e), pat, pat.len() as int)
}

pub proof fn lemma_first_occ_some(t: Seq<u8>, pat: Seq<u8>, lo: int, e: int)
    requires
        0 <= lo <= e <= t.len(),
        occ_at(t, pat, e),
        forall|f: int| lo <= f < e ==> !#[trigger] occ_at(t, pat, f),
    ensures
        first_occ_end(t, pat, lo) == Some(e),
    decreases e - lo,
{
    if lo < e {
        assert(!occ_at(t, pat, lo));
        lemma_first_occ_some(t, pat, lo + 1, e);
    }
}

pub proof fn lemma_first_occ_none(t: Seq<u8>, pat: Seq<u8>, lo: int)
    requires
        0 <= lo,
        forall|f: int| lo <= f <= t.len() ==> !#[trigger] occ_at(t, pat, f),
    ensures
        first_occ_end(t, pat, lo) is None,
    decreases t.len() + 1 - lo,
{
    if lo <= t.len() {
        assert(!occ_at(t, pat, lo));
        lemma_first_occ_none(t, pat, lo + 1);
    }
}

/// A pattern prefix of length `j` below the pattern length is its own
/// longest proper suffix-prefix.
pub proof fn lemma_lps_of_prefix(pat: Seq<u8>, j: int)
    requires
        0 <= j < pat.len(),
    ensures
        longest_prefix_suffix(pat.take(j), pat, pat.len() - 1) == j,
{
    let u = pat.take(j);
    assert(u.subrange(u.len() - j, u.len() as int) =~= pat.take(j));
    lemma_lps_unique(u, pat, pat.len() - 1, j);
}

} // verus!

verus! {

/// An occurrence found from `lo` ends within the text, after a whole pattern.
pub proof fn lemma_first_occ_props(t: Seq<u8>, pat: Seq<u8>, lo: int)
    ensures
        first_occ_end(t, pat, lo) matches Some(e) ==> lo <= e <= t.len() && e >= pat.len() && occ_at(t, pat, e),
    decreases t.len() + 1 - lo,
{
    if lo <= t.len() && lo >= 0 && !ends_with_prefix(t.take(lo), pat, pat.len() as int) {
        lemma_first_occ_props(t, pat, lo + 1);
    }
}

} // verus!
