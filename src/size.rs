//! Soundness of the size estimate: the encoding of any value that fits a
//! record's declaration is no longer than the record's size constant.
use vstd::prelude::*;
use crate::attributes::len_or_zero;
use crate::field::{FieldType, Scalar, remote_of, scalar_width, weight_of};
use crate::path::PathNamed;
use crate::record::{Field, fields_weight, name_bytes, record_weight, remotes_of};

verus! {

/// A value in the wire shape, as the encoding sees it.
pub enum Value {
    Int(int),
    Bool(bool),
    /// Text, by its bytes.
    Text(Seq<u8>),
    /// An array of values.
    List(Seq<Value>),
    /// A record: the bytes of each key, and each value.
    Record(Seq<Seq<u8>>, Seq<Value>),
}

/// The number of commas between `n` items.
pub open spec fn commas(n: nat) -> nat {
    if n > 0 { (n - 1) as nat } else { 0 }
}

/// The length of the decimal text of `n`.
pub open spec fn digits_len(n: nat) -> nat
    decreases n,
{
    if n < 10 { 1 } else { 1 + digits_len(n / 10) }
}

/// The length of the compact text encoding of `v`: numbers in decimal,
/// `true`/`false`, text in quotes, `[a,b]` and `{"k":a,"l":b}`.
pub open spec fn enc_len(v: Value) -> nat
    decreases v,
{
    match v {
        Value::Int(i) => if i < 0 { 1 + digits_len((-i) as nat) } else { digits_len(i as nat) },
        Value::Bool(b) => if b { 4 } else { 5 },
        Value::Text(t) => t.len() + 2,
        Value::List(vs) => 2 + list_len(vs) + commas(vs.len()),
        Value::Record(ks, vs) => 2 + entries_len(ks, vs) + commas(vs.len()),
    }
}

/// The summed encoded lengths of `vs`.
pub open spec fn list_len(vs: Seq<Value>) -> nat
    decreases vs,
{
    if vs.len() == 0 {
        0
    } else {
        list_len(vs.drop_last()) + enc_len(vs.last())
    }
}

/// The summed lengths of `"k":v` for each entry.
pub open spec fn entries_len(ks: Seq<Seq<u8>>, vs: Seq<Value>) -> nat
    decreases vs,
{
    if vs.len() == 0 {
        0
    } else {
        entries_len(ks, vs.drop_last()) + ks[vs.len() - 1].len() + 3 + enc_len(vs.last())
    }
}

/// Text the encoding writes as it stands: no quote, backslash or control
/// byte.
pub open spec fn plain_text(t: Seq<u8>) -> bool {
    forall|i: int| 0 <= i < t.len() ==> t[i] >= 0x20 && t[i] != 0x22 && t[i] != 0x5c
}

/// Whether `v` is a value of the scalar type `k`.
pub open spec fn scalar_fits(k: Scalar, v: Value) -> bool {
    match k {
        Scalar::Bool => v is Bool,
        Scalar::I8 => v matches Value::Int(i) && -0x80 <= i < 0x80,
        Scalar::I16 => v matches Value::Int(i) && -0x8000 <= i < 0x8000,
        Scalar::I32 => v matches Value::Int(i) && -0x8000_0000 <= i < 0x8000_0000,
        Scalar::U8 => v matches Value::Int(i) && 0 <= i < 0x100,
        Scalar::U16 => v matches Value::Int(i) && 0 <= i < 0x1_0000,
        Scalar::U32 => v matches Value::Int(i) && 0 <= i < 0x1_0000_0000,
    }
}

/// Whether `v` is a value of type `t` whose text holds at most `len` plain
/// bytes, and whose nested records encode within `size` of their paths.
pub open spec fn fits(v: Value, t: FieldType, len: nat, size: spec_fn(PathNamed) -> nat) -> bool
    decreases t,
{
    match t {
        FieldType::Primative(k) => scalar_fits(k, v),
        FieldType::RefStr(_) => v matches Value::Text(b) && b.len() <= len && plain_text(b),
        FieldType::Struct(p) => v is Record && enc_len(v) <= size(p),
        FieldType::Array(a) => v matches Value::List(vs) && vs.len() == a.n && forall|i: int|
            0 <= i < vs.len() ==> fits(#[trigger] vs[i], *a.ty, len, size),
    }
}

/// The part of a size constant that other records' sizes contribute for a
/// value of type `t`.
pub open spec fn remote_size(t: FieldType, size: spec_fn(PathNamed) -> nat) -> nat {
    match remote_of(t) {
        Some((p, m)) => m * size(p),
        None => 0,
    }
}

/// `sum of m * size(p)` over the remote sizes of a record.
pub open spec fn remote_sum(rs: Seq<(PathNamed, nat)>, size: spec_fn(PathNamed) -> nat) -> nat
    decreases rs.len(),
{
    if rs.len() == 0 {
        0
    } else {
        remote_sum(rs.drop_last(), size) + rs.last().1 * size(rs.last().0)
    }
}

/// Whether a record value (keys `ks`, values `vs`) fits the fields `fs`:
/// one entry per field, keyed by the field's name, each value fitting the
/// field's type.
pub open spec fn record_fits(fs: Seq<Field>, ks: Seq<Seq<u8>>, vs: Seq<Value>, size: spec_fn(PathNamed) -> nat) -> bool {
    &&& ks.len() == fs.len()
    &&& vs.len() == fs.len()
    &&& forall|i: int| 0 <= i < fs.len() ==> (#[trigger] ks[i]).len() == name_bytes(fs[i])
    &&& forall|i: int| 0 <= i < fs.len() ==> fits(#[trigger] vs[i], fs[i].ty, len_or_zero(fs[i].attributes.0@) as nat, size)
}

pub open spec fn pow10(k: nat) -> nat
    decreases k,
{
    if k == 0 { 1 } else { 10 * pow10((k - 1) as nat) }
}

proof fn lemma_digits_le(n: nat, k: nat)
    requires
        1 <= k,
        n < pow10(k),
    ensures
        digits_len(n) <= k,
    decreases k,
{
    if n >= 10 {
        let p = pow10((k - 1) as nat);
        assert(pow10(k) == 10 * p);
        if k == 1 {
            assert(pow10(0) == 1);
        }
        assert(n / 10 < p) by (nonlinear_arith)
            requires n < 10 * p;
        assert(k >= 2) by {
            if k == 1 {
                assert(pow10(1) == 10);
            }
        }
        lemma_digits_le(n / 10, (k - 1) as nat);
    }
}

proof fn lemma_scalar_bound(k: Scalar, v: Value)
    requires
        scalar_fits(k, v),
    ensures
        enc_len(v) <= scalar_width(k),
{
    reveal_with_fuel(pow10, 11);
    assert(pow10(3) == 1000);
    assert(pow10(5) == 100000);
    assert(pow10(10) == 10000000000);
    match v {
        Value::Int(i) => {
            if i < 0 {
                let m = (-i) as nat;
                match k {
                    Scalar::I8 => lemma_digits_le(m, 3),
                    Scalar::I16 => lemma_digits_le(m, 5),
                    _ => lemma_digits_le(m, 10),
                }
            } else {
                let m = i as nat;
                match k {
                    Scalar::I8 => lemma_digits_le(m, 3),
                    Scalar::U8 => lemma_digits_le(m, 3),
                    Scalar::I16 => lemma_digits_le(m, 5),
                    Scalar::U16 => lemma_digits_le(m, 5),
                    _ => lemma_digits_le(m, 10),
                }
            }
        },
        _ => {},
    }
}

proof fn lemma_list_bound(vs: Seq<Value>, b: nat)
    requires
        forall|i: int| 0 <= i < vs.len() ==> enc_len(#[trigger] vs[i]) <= b,
    ensures
        list_len(vs) <= vs.len() * b,
    decreases vs.len(),
{
    if vs.len() > 0 {
        let init = vs.drop_last();
        assert forall|i: int| 0 <= i < init.len() implies enc_len(#[trigger] init[i]) <= b by {
            assert(init[i] == vs[i]);
        }
        lemma_list_bound(init, b);
        let n = vs.len();
        assert(enc_len(vs.last()) <= b);
        assert((n - 1) * b + b == n * b) by (nonlinear_arith);
    }
}

/// A value that fits type `t` encodes within the type's own weight plus what
/// the records it depends on contribute.
pub proof fn lemma_type_bound(v: Value, t: FieldType, len: nat, size: spec_fn(PathNamed) -> nat)
    requires
        fits(v, t, len, size),
    ensures
        enc_len(v) <= weight_of(t, len) + remote_size(t, size),
    decreases t,
{
    match t {
        FieldType::Primative(k) => {
            lemma_scalar_bound(k, v);
            assert(enc_len(v) <= scalar_width(k));
            assert(weight_of(t, len) == scalar_width(k));
            assert(remote_size(t, size) == 0);
        },
        FieldType::RefStr(_) => {
            assert(remote_size(t, size) == 0);
            assert(weight_of(t, len) == len + 2);
        },
        FieldType::Struct(p) => {
            assert(remote_of(t) == Some((p, 1nat)));
            let sp = size(p);
            assert(1nat * sp == sp) by (nonlinear_arith);
            assert(remote_size(t, size) == size(p));
            assert(weight_of(t, len) == 0);
        },
        FieldType::Array(a) => {
            let vs = v->List_0;
            let e = *a.ty;
            let b = weight_of(e, len) + remote_size(e, size);
            assert forall|i: int| 0 <= i < vs.len() implies enc_len(#[trigger] vs[i]) <= b by {
                assert(fits(vs[i], e, len, size));
                lemma_type_bound(vs[i], e, len, size);
            }
            lemma_list_bound(vs, b);
            let n = a.n as nat;
            let w = weight_of(e, len);
            let r = remote_size(e, size);
            assert(n * b == n * w + n * r) by (nonlinear_arith)
                requires b == w + r;
            match remote_of(e) {
                Some((p, m)) => {
                    assert(remote_size(t, size) == (n * m) * size(p));
                    assert((n * m) * size(p) == n * (m * size(p))) by (nonlinear_arith);
                },
                None => {},
            }
        },
    }
}

/// The remote contributions of the fields `fs`, field by field.
pub open spec fn fields_remote(fs: Seq<Field>, size: spec_fn(PathNamed) -> nat) -> nat
    decreases fs.len(),
{
    if fs.len() == 0 {
        0
    } else {
        fields_remote(fs.drop_last(), size) + remote_size(fs.last().ty, size)
    }
}

proof fn lemma_remote_sum(fs: Seq<Field>, size: spec_fn(PathNamed) -> nat)
    ensures
        remote_sum(remotes_of(fs), size) == fields_remote(fs, size),
    decreases fs.len(),
{
    if fs.len() > 0 {
        lemma_remote_sum(fs.drop_last(), size);
        let rs = remotes_of(fs.drop_last());
        match remote_of(fs.last().ty) {
            Some(x) => {
                assert(remotes_of(fs) == rs + seq![x]);
                assert((rs + seq![x]).drop_last() =~= rs);
            },
            None => {
                assert(remotes_of(fs) =~= rs);
            },
        }
    }
}

proof fn lemma_entries_bound(fs: Seq<Field>, ks: Seq<Seq<u8>>, vs: Seq<Value>, size: spec_fn(PathNamed) -> nat)
    requires
        vs.len() == fs.len(),
        ks.len() >= fs.len(),
        forall|i: int| 0 <= i < fs.len() ==> (#[trigger] ks[i]).len() == name_bytes(fs[i]),
        forall|i: int| 0 <= i < fs.len() ==> fits(#[trigger] vs[i], fs[i].ty, len_or_zero(fs[i].attributes.0@) as nat, size),
    ensures
        entries_len(ks, vs) <= fields_weight(fs) + fields_remote(fs, size),
    decreases fs.len(),
{
    if fs.len() > 0 {
        let n = fs.len();
        let fi = fs.drop_last();
        let vi = vs.drop_last();
        assert forall|i: int| 0 <= i < fi.len() implies (#[trigger] ks[i]).len() == name_bytes(fi[i]) by {
            assert(fi[i] == fs[i]);
        }
        assert forall|i: int| 0 <= i < fi.len() implies fits(#[trigger] vi[i], fi[i].ty, len_or_zero(fi[i].attributes.0@) as nat, size) by {
            assert(fi[i] == fs[i]);
            assert(vi[i] == vs[i]);
        }
        lemma_entries_bound(fi, ks, vi, size);
        let f = fs.last();
        assert(ks[n - 1].len() == name_bytes(fs[n - 1]));
        assert(fits(vs[n - 1], fs[n - 1].ty, len_or_zero(fs[n - 1].attributes.0@) as nat, size));
        lemma_type_bound(vs.last(), f.ty, len_or_zero(f.attributes.0@) as nat, size);
    }
}

/// Size bound soundness: the encoding of a record value that fits the
/// declaration is no longer than the record's size constant, that is its own
/// weight plus, for each record it depends on, that record's size times the
/// multiplicity; provided values of those records keep within their own
/// sizes (`size`), as their own constants guarantee.
pub proof fn lemma_size_bound(fs: Seq<Field>, ks: Seq<Seq<u8>>, vs: Seq<Value>, size: spec_fn(PathNamed) -> nat)
    requires
        record_fits(fs, ks, vs, size),
    ensures
        enc_len(Value::Record(ks, vs)) <= record_weight(fs) + remote_sum(remotes_of(fs), size),
{
    lemma_entries_bound(fs, ks, vs, size);
    lemma_remote_sum(fs, size);
}

} // verus!
