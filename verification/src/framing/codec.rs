//! Length-prefix codecs: fixed-width length fields and protobuf varint32.
use vstd::prelude::*;

verus! {

/// Byte order of a fixed-width length field.
#[derive(Debug, Clone, Copy, PartialEq, Eq)]
pub enum ByteOrder {
    Big,
    Little,
}

/// `256^n`.
pub open spec fn pow256(n: nat) -> nat
    decreases n,
{
    if n == 0 { 1 } else { 256 * pow256((n - 1) as nat) }
}

/// Big-endian value of a byte string.
pub open spec fn be_value(b: Seq<u8>) -> nat
    decreases b.len(),
{
    if b.len() == 0 { 0 } else { (be_value(b.drop_last()) * 256 + b.last()) as nat }
}

/// Little-endian value of a byte string.
pub open spec fn le_value(b: Seq<u8>) -> nat
    decreases b.len(),
{
    if b.len() == 0 { 0 } else { (b[0] + 256 * le_value(b.drop_first())) as nat }
}

/// Value of a length field in the given byte order.
pub open spec fn field_value(order: ByteOrder, b: Seq<u8>) -> nat {
    match order {
        ByteOrder::Big => be_value(b),
        ByteOrder::Little => le_value(b),
    }
}

/// Supported length-field widths.
pub open spec fn valid_field_len(n: int) -> bool {
    n == 1 || n == 2 || n == 3 || n == 4 || n == 8
}

/// Reverse of a byte string.
pub open spec fn rev(s: Seq<u8>) -> Seq<u8>
    decreases s.len(),
{
    if s.len() == 0 { Seq::empty() } else { rev(s.drop_first()).push(s[0]) }
}

pub proof fn lemma_pow256_pos(n: nat)
    ensures
        pow256(n) >= 1,
    decreases n,
{
    if n > 0 { lemma_pow256_pos((n - 1) as nat); }
}

pub proof fn lemma_pow256_8()
    ensures
        pow256(8) == 0x1_0000_0000_0000_0000,
{
    reveal_with_fuel(pow256, 9);
}

pub proof fn lemma_pow256_mono(a: nat, b: nat)
    requires
        a <= b,
    ensures
        pow256(a) <= pow256(b),
    decreases b,
{
    if a < b {
        lemma_pow256_mono(a, (b - 1) as nat);
        lemma_pow256_pos((b - 1) as nat);
    }
}

pub proof fn lemma_be_bound(b: Seq<u8>)
    ensures
        be_value(b) < pow256(b.len()),
    decreases b.len(),
{
    if b.len() > 0 {
        lemma_be_bound(b.drop_last());
        let v = be_value(b.drop_last());
        let p = pow256((b.len() - 1) as nat);
        assert(v * 256 + b.last() < 256 * p) by (nonlinear_arith)
            requires v < p, b.last() < 256;
    }
}

pub proof fn lemma_le_bound(b: Seq<u8>)
    ensures
        le_value(b) < pow256(b.len()),
    decreases b.len(),
{
    if b.len() > 0 {
        lemma_le_bound(b.drop_first());
        let v = le_value(b.drop_first());
        let p = pow256((b.len() - 1) as nat);
        assert(b[0] + 256 * v < 256 * p) by (nonlinear_arith)
            requires v < p, b[0] < 256;
    }
}

/// Appending a most-significant byte to a little-endian string.
pub proof fn lemma_le_push(b: Seq<u8>, x: u8)
    ensures
        le_value(b.push(x)) == le_value(b) + pow256(b.len()) * x,
    decreases b.len(),
{
    if b.len() > 0 {
        lemma_le_push(b.drop_first(), x);
        assert(b.push(x).drop_first() =~= b.drop_first().push(x));
        let p = pow256((b.len() - 1) as nat);
        assert(256 * (le_value(b.drop_first()) + p * x) == 256 * le_value(b.drop_first()) + (256 * p) * x)
            by (nonlinear_arith);
        assert(b.push(x)[0] == b[0]);
        assert(pow256(b.len()) == 256 * p);
    } else {
        assert(b.push(x).drop_first() =~= Seq::<u8>::empty());
        assert(le_value(Seq::<u8>::empty()) == 0);
        assert(pow256(0) == 1);
        assert(b.push(x)[0] == x);
    }
}

/// Reading a reversed string big-endian reads it little-endian.
pub proof fn lemma_be_rev(s: Seq<u8>)
    ensures
        be_value(rev(s)) == le_value(s),
        rev(s).len() == s.len(),
    decreases s.len(),
{
    if s.len() > 0 {
        lemma_be_rev(s.drop_first());
        let r = rev(s);
        assert(r.drop_last() =~= rev(s.drop_first()));
    }
}

/// Read a fixed-width length field; `None` for an unsupported width.
pub fn read_len_field(order: ByteOrder, b: &[u8]) -> (r: Option<u64>)
    ensures
        r.is_some() <==> valid_field_len(b@.len() as int),
        r.is_some() ==> r.unwrap() as int == field_value(order, b@),
{
    let n = b.len();
    if !(n == 1 || n == 2 || n == 3 || n == 4 || n == 8) {
        return None;
    }
    let mut v: u64 = 0;
    match order {
        ByteOrder::Big => {
            let mut i: usize = 0;
            while i < n
                invariant
                    i <= n == b@.len() <= 8,
                    v as int == be_value(b@.take(i as int)),
                decreases n - i,
            {
                proof {
                    lemma_be_bound(b@.take(i as int));
                    lemma_pow256_mono((i + 1) as nat, 8);
                    lemma_pow256_8();
                    assert(b@.take(i + 1).drop_last() =~= b@.take(i as int));
                    let p = pow256(i as nat);
                    assert(v * 256 + b@[i as int] < 256 * p) by (nonlinear_arith)
                        requires v < p, b@[i as int] < 256;
                }
                v = v * 256 + b[i] as u64;
                i = i + 1;
            }
            proof { assert(b@.take(n as int) =~= b@); }
        },
        ByteOrder::Little => {
            let mut i: usize = n;
            while i > 0
                invariant
                    i <= n == b@.len() <= 8,
                    v as int == le_value(b@.skip(i as int)),
                decreases i,
            {
                proof {
                    lemma_le_bound(b@.skip(i as int));
                    lemma_pow256_mono((n - i + 1) as nat, 8);
                    lemma_pow256_8();
                    assert(b@.skip(i - 1).drop_first() =~= b@.skip(i as int));
                    let p = pow256((n - i) as nat);
                    assert(v * 256 + b@[i - 1] < 256 * p) by (nonlinear_arith)
                        requires v < p, b@[i - 1] < 256;
                    assert(b@[i - 1] + 256 * v == v * 256 + b@[i - 1]);
                }
                v = v * 256 + b[i - 1] as u64;
                i = i - 1;
            }
            proof { assert(b@.skip(0) =~= b@); }
        },
    }
    Some(v)
}

/// Encode `value` in a `field_len`-byte length field; `None` when the width is
/// unsupported or the value does not fit.
pub fn write_len_field(order: ByteOrder, field_len: usize, value: usize) -> (r: Option<Vec<u8>>)
    ensures
        r.is_some() <==> (valid_field_len(field_len as int) && value < pow256(field_len as nat)),
        r.is_some() ==> r.unwrap()@.len() == field_len && field_value(order, r.unwrap()@) == value,
{
    if !(field_len == 1 || field_len == 2 || field_len == 3 || field_len == 4 || field_len == 8) {
        return None;
    }
    let mut le: Vec<u8> = Vec::new();
    let mut rem: usize = value;
    let mut i: usize = 0;
    proof {
        assert(le_value(le@) == 0);
        assert(pow256(0) == 1);
    }
    while i < field_len
        invariant
            i <= field_len <= 8,
            le@.len() == i,
            value as int == le_value(le@) + pow256(i as nat) * rem,
        decreases field_len - i,
    {
        let x = (rem % 256) as u8;
        proof {
            lemma_le_push(le@, x);
            let p = pow256(i as nat);
            assert(p * rem == p * x + (256 * p) * (rem / 256)) by (nonlinear_arith)
                requires x == rem % 256;
        }
        le.push(x);
        rem = rem / 256;
        i = i + 1;
    }
    proof {
        lemma_pow256_pos(field_len as nat);
        if rem > 0 {
            assert(pow256(field_len as nat) * rem >= pow256(field_len as nat)) by (nonlinear_arith)
                requires rem >= 1, pow256(field_len as nat) >= 1;
        }
        lemma_le_bound(le@);
    }
    if rem != 0 {
        return None;
    }
    match order {
        ByteOrder::Little => Some(le),
        ByteOrder::Big => {
            let mut be: Vec<u8> = Vec::new();
            let mut k: usize = 0;
            while k < field_len
                invariant
                    k <= field_len == le@.len(),
                    be@ == rev(le@.skip(field_len - k)),
                decreases field_len - k,
            {
                proof {
                    let t = le@.skip(field_len - k - 1);
                    assert(t.drop_first() =~= le@.skip(field_len - k));
                    assert(t[0] == le@[field_len - k - 1]);
                }
                be.push(le[field_len - 1 - k]);
                k = k + 1;
            }
            proof {
                assert(le@.skip(0) =~= le@);
                lemma_be_rev(le@);
            }
            Some(be)
        },
    }
}

pub proof fn lemma_be_injective(a: Seq<u8>, b: Seq<u8>)
    requires
        a.len() == b.len(),
        be_value(a) == be_value(b),
    ensures
        a == b,
    decreases a.len(),
{
    if a.len() > 0 {
        let x = be_value(a.drop_last());
        let y = be_value(b.drop_last());
        let p = a.last();
        let q = b.last();
        assert(p == q && x == y) by (nonlinear_arith)
            requires x * 256 + p == y * 256 + q, 0 <= p < 256, 0 <= q < 256, x >= 0, y >= 0;
        lemma_be_injective(a.drop_last(), b.drop_last());
        assert(a =~= a.drop_last().push(a.last()));
        assert(b =~= b.drop_last().push(b.last()));
    } else {
        assert(a =~= b);
    }
}

pub proof fn lemma_le_injective(a: Seq<u8>, b: Seq<u8>)
    requires
        a.len() == b.len(),
        le_value(a) == le_value(b),
    ensures
        a == b,
    decreases a.len(),
{
    if a.len() > 0 {
        let x = le_value(a.drop_first());
        let y = le_value(b.drop_first());
        let p = a[0];
        let q = b[0];
        assert(p == q && x == y) by (nonlinear_arith)
            requires p + 256 * x == q + 256 * y, 0 <= p < 256, 0 <= q < 256, x >= 0, y >= 0;
        lemma_le_injective(a.drop_first(), b.drop_first());
        assert(a =~= seq![a[0]] + a.drop_first());
        assert(b =~= seq![b[0]] + b.drop_first());
    } else {
        assert(a =~= b);
    }
}

/// A length field is determined by its width and value, and every field of a
/// supported width holds a value that fits that width: writing back what was
/// read reproduces the field byte for byte, and reading what was written
/// gives back the value.
pub proof fn lemma_len_field_roundtrip(order: ByteOrder, field: Seq<u8>, written: Seq<u8>)
    requires
        written.len() == field.len(),
        field_value(order, written) == field_value(order, field),
    ensures
        field_value(order, field) < pow256(field.len()),
        written == field,
{
    match order {
        ByteOrder::Big => {
            lemma_be_bound(field);
            lemma_be_injective(written, field);
        },
        ByteOrder::Little => {
            lemma_le_bound(field);
            lemma_le_injective(written, field);
        },
    }
}

} // verus!

verus! {

/// `128^n`.
pub open spec fn pow128(n: nat) -> nat
    decreases n,
{
    if n == 0 { 1 } else { 128 * pow128((n - 1) as nat) }
}

/// Value of little-endian base-128 digits (high bits ignored).
pub open spec fn varint_val(b: Seq<u8>) -> nat
    decreases b.len(),
{
    if b.len() == 0 { 0 } else { ((b[0] % 128) + 128 * varint_val(b.drop_first())) as nat }
}

/// First index in `[lo, hi)` whose byte has the continuation bit clear.
pub open spec fn varint_term(b: Seq<u8>, lo: int, hi: int) -> Option<int>
    decreases hi - lo,
{
    if lo >= hi {
        None
    } else if b[lo] < 128 {
        Some(lo)
    } else {
        varint_term(b, lo + 1, hi)
    }
}

/// Protobuf varint32 decoding of the front of `b`: the value and the prefix
/// length, when a terminated varint of at most 5 bytes whose value fits in
/// 32 bits starts `b`.
pub open spec fn varint32_decode_spec(b: Seq<u8>) -> Option<(u32, usize)> {
    let hi: int = if b.len() < 5 { b.len() as int } else { 5 };
    match varint_term(b, 0, hi) {
        Some(k) => {
            let v = varint_val(b.take(k + 1));
            if v <= u32::MAX { Some((v as u32, (k + 1) as usize)) } else { None }
        },
        None => None,
    }
}

/// Protobuf varint encoding of `v`.
pub open spec fn varint_encode(v: nat) -> Seq<u8>
    decreases v,
{
    if v < 128 { seq![v as u8] } else { seq![((v % 128) + 128) as u8] + varint_encode(v / 128) }
}

proof fn lemma_varint_val_push(s: Seq<u8>, x: u8)
    ensures
        varint_val(s.push(x)) == varint_val(s) + pow128(s.len()) * (x % 128),
    decreases s.len(),
{
    if s.len() > 0 {
        lemma_varint_val_push(s.drop_first(), x);
        assert(s.push(x).drop_first() =~= s.drop_first().push(x));
        let p = pow128((s.len() - 1) as nat);
        assert(128 * (varint_val(s.drop_first()) + p * (x % 128)) == 128 * varint_val(s.drop_first()) + (128 * p) * (x % 128))
            by (nonlinear_arith);
        assert(s.push(x)[0] == s[0]);
        assert(pow128(s.len()) == 128 * p);
    } else {
        assert(s.push(x).drop_first() =~= Seq::<u8>::empty());
        assert(varint_val(Seq::<u8>::empty()) == 0);
        assert(s.push(x)[0] == x);
        assert(pow128(0) == 1);
    }
}

proof fn lemma_varint_val_bound(s: Seq<u8>)
    ensures
        varint_val(s) < pow128(s.len()),
    decreases s.len(),
{
    if s.len() > 0 {
        lemma_varint_val_bound(s.drop_first());
        let v = varint_val(s.drop_first());
        let p = pow128((s.len() - 1) as nat);
        assert((s[0] % 128) + 128 * v < 128 * p) by (nonlinear_arith)
            requires v < p;
    }
}

proof fn lemma_varint_term_some(b: Seq<u8>, lo: int, hi: int, k: int)
    requires
        lo <= k < hi,
        b[k] < 128,
        forall|j: int| lo <= j < k ==> #[trigger] b[j] >= 128,
    ensures
        varint_term(b, lo, hi) == Some(k),
    decreases k - lo,
{
    if lo < k {
        lemma_varint_term_some(b, lo + 1, hi, k);
    }
}

proof fn lemma_varint_term_none(b: Seq<u8>, lo: int, hi: int)
    requires
        forall|j: int| lo <= j < hi ==> #[trigger] b[j] >= 128,
    ensures
        varint_term(b, lo, hi) is None,
    decreases hi - lo,
{
    if lo < hi {
        lemma_varint_term_none(b, lo + 1, hi);
    }
}

/// Decode a protobuf varint32 from the front of `b`.
pub fn varint32_decode(b: &[u8]) -> (r: Option<(u32, usize)>)
    ensures
        r == varint32_decode_spec(b@),
{
    let lim: usize = if b.len() < 5 { b.len() } else { 5 };
    let mut acc: u64 = 0;
    let mut mul: u64 = 1;
    let mut i: usize = 0;
    proof {
        assert(varint_val(b@.take(0)) == 0);
    }
    while i < lim
        invariant
            i <= lim <= 5,
            lim as int == (if b@.len() < 5 { b@.len() as int } else { 5 }),
            acc as int == varint_val(b@.take(i as int)),
            mul as int == pow128(i as nat),
            forall|j: int| 0 <= j < i ==> #[trigger] b@[j] >= 128,
        decreases lim - i,
    {
        let x = b[i];
        proof {
            lemma_varint_val_bound(b@.take(i as int));
            lemma_varint_val_push(b@.take(i as int), x);
            assert(b@.take(i + 1) =~= b@.take(i as int).push(x));
            reveal_with_fuel(pow128, 6);
            assert(pow128(i as nat) <= pow128(4));
            assert(acc + (x % 128) * mul < 128 * mul) by (nonlinear_arith)
                requires acc < mul, x % 128 < 128;
            assert((x % 128) * mul == pow128(i as nat) * (x % 128)) by (nonlinear_arith)
                requires mul == pow128(i as nat);
            assert(acc + (x % 128) * mul == varint_val(b@.take(i + 1)));
        }
        acc = acc + (x % 128) as u64 * mul;
        if x < 128 {
            proof {
                lemma_varint_term_some(b@, 0, lim as int, i as int);
                assert(acc as int == varint_val(b@.take(i + 1)));
            }
            if acc <= 0xFFFF_FFFFu64 {
                return Some((acc as u32, i + 1));
            } else {
                return None;
            }
        }
        mul = mul * 128;
        i = i + 1;
    }
    proof { lemma_varint_term_none(b@, 0, lim as int); }
    None
}

/// Encode `v` as a protobuf varint32 (1 to 5 bytes).
pub fn varint32_encode(v: u32) -> (r: Vec<u8>)
    ensures
        r@ == varint_encode(v as nat),
{
    let mut out: Vec<u8> = Vec::new();
    let mut rest: u32 = v;
    while rest >= 128
        invariant
            out@ + varint_encode(rest as nat) == varint_encode(v as nat),
        decreases rest,
    {
        let ghost before = out@;
        out.push(((rest % 128) + 128) as u8);
        proof {
            assert(out@ + varint_encode((rest / 128) as nat) =~= before + varint_encode(rest as nat));
        }
        rest = rest / 128;
    }
    out.push(rest as u8);
    proof {
        assert(varint_encode(rest as nat) == seq![rest as u8]);
    }
    out
}

/// Shape of an encoding: continuation bits set on all but the last byte,
/// the digits give back the value, and it is short when the value is small.
pub proof fn lemma_varint_encode_props(v: nat, k: nat)
    requires
        k >= 1,
        v < pow128(k),
    ensures
        1 <= varint_encode(v).len() <= k,
        varint_encode(v)[varint_encode(v).len() - 1] < 128,
        forall|j: int| 0 <= j < varint_encode(v).len() - 1 ==> #[trigger] varint_encode(v)[j] >= 128,
        varint_val(varint_encode(v)) == v,
    decreases v,
{
    if v < 128 {
        let e = varint_encode(v);
        assert(e.drop_first() =~= Seq::<u8>::empty());
        assert(varint_val(Seq::<u8>::empty()) == 0);
    } else {
        let kk = (k - 1) as nat;
        assert(pow128(k) == 128 * pow128(kk));
        if kk == 0 {
            assert(pow128(0) == 1);
            assert(false);
        }
        assert(v / 128 < pow128(kk)) by (nonlinear_arith)
            requires v < 128 * pow128(kk);
        lemma_varint_encode_props(v / 128, kk);
        let e = varint_encode(v);
        let t = varint_encode(v / 128);
        assert(e.drop_first() =~= t);
        assert(e[e.len() - 1] == t[t.len() - 1]);
        assert forall|j: int| 0 <= j < e.len() - 1 implies #[trigger] e[j] >= 128 by {
            if j > 0 { assert(e[j] == t[j - 1]); }
        }
        assert((v % 128) + 128 * (v / 128) == v) by (nonlinear_arith);
    }
}

/// Decoding an encoded varint32 gives back its value and length, whatever
/// bytes follow it in the stream.
pub proof fn lemma_varint32_roundtrip(v: u32, rest: Seq<u8>)
    ensures
        varint32_decode_spec(varint_encode(v as nat) + rest)
            == Some((v, varint_encode(v as nat).len() as usize)),
        varint_encode(v as nat).len() <= 5,
{
    reveal_with_fuel(pow128, 6);
    lemma_varint_encode_props(v as nat, 5);
    let e = varint_encode(v as nat);
    let b = e + rest;
    let hi: int = if b.len() < 5 { b.len() as int } else { 5 };
    assert forall|j: int| 0 <= j < e.len() - 1 implies #[trigger] b[j] >= 128 by {
        assert(b[j] == e[j]);
    }
    lemma_varint_term_some(b, 0, hi, e.len() - 1);
    assert(b.take(e.len() as int) =~= e);
}

} // verus!
