//! Properties that hold across the library's functions.
use vstd::prelude::*;
use vstd::utf8::valid_utf8;
use crate::attributes::{Attribute, AttributeDoc, AttributeOurs, doc_toks};
use crate::copy::{buffer_text, lemma_text_len, padded, padded_text, text_len};
use crate::field::{FieldType, Scalar, stackified};
use crate::generate::{init_toks, lit_v, safe_copy_of};
use crate::record::{Field, bare_field_toks, field_toks, kept_attrs};
use crate::token::{TokV, ident_v};

verus! {

/// Copying `L` items into a buffer of capacity `N` writes exactly the
/// buffer: the first `min(L, N)` slots hold the source, and when `L < N` the
/// slots from `L` on are zero.
pub proof fn lemma_truncating_copy(src: Seq<u8>, n: nat)
    ensures
        padded(src, n, 0u8).len() == n,
        forall|i: int| 0 <= i < n && i < src.len() ==> #[trigger] padded(src, n, 0u8)[i] == src[i],
        src.len() < n ==> forall|i: int| src.len() <= i < n ==> #[trigger] padded(src, n, 0u8)[i] == 0,
{
}

proof fn lemma_zero_free_len(b: Seq<u8>, n: nat)
    requires
        b.len() < n,
        forall|i: int| 0 <= i < b.len() ==> b[i] != 0,
    ensures
        text_len(padded_text(b, n)) == b.len(),
        padded_text(b, n).subrange(0, b.len() as int) == b,
{
    let p = padded_text(b, n);
    assert(p.subrange(0, b.len() as int) =~= b);
    lemma_text_len(p, b.len() as int);
}

proof fn lemma_text_len_bound(b: Seq<u8>)
    ensures
        text_len(b) <= b.len(),
    decreases b.len(),
{
    if b.len() > 0 && b[0] != 0 {
        lemma_text_len_bound(b.drop_first());
    }
}

proof fn lemma_text_len_prefix(b: Seq<u8>)
    ensures
        forall|i: int| 0 <= i < text_len(b) ==> b[i] != 0,
    decreases b.len(),
{
    if b.len() > 0 && b[0] != 0 {
        lemma_text_len_prefix(b.drop_first());
        lemma_text_len_bound(b.drop_first());
        assert forall|i: int| 0 <= i < text_len(b) implies b[i] != 0 by {
            if i > 0 {
                assert(b[i] == b.drop_first()[i - 1]);
            }
        }
    }
}

/// Text copied into a buffer of capacity `n` and read back: text without
/// zero bytes that fits (shorter than `n`, leaving room for the final zero)
/// comes back unchanged; longer text comes back as a prefix of itself.
pub proof fn lemma_text_round_trip(text: Seq<u8>, n: nat)
    requires
        n > 0,
        valid_utf8(text),
        forall|i: int| 0 <= i < text.len() ==> text[i] != 0,
    ensures
        text.len() < n ==> buffer_text(padded_text(text, n)) == text,
        buffer_text(padded_text(text, n)).len() <= text.len(),
        buffer_text(padded_text(text, n)) == text.subrange(0, buffer_text(padded_text(text, n)).len() as int),
{
    let p = padded_text(text, n);
    if text.len() < n {
        lemma_zero_free_len(text, n);
    } else {
        lemma_text_len_bound(p);
        lemma_text_len_prefix(p);
        let k = text_len(p);
        assert(p[n - 1] == 0);
        if k == n {
            assert(p[n - 1] != 0);
        }
        assert(k < n);
        assert(p.subrange(0, k as int) =~= text.subrange(0, k as int));
    }
}

/// Default construction is total and leaves no field undefined: a scalar
/// field without a `default` line starts at `0` (`false` for `bool`); a text
/// field without one is copied from empty text, which fills its buffer with
/// zero bytes.
pub proof fn lemma_default_without_attribute(t: FieldType, n: nat)
    requires
        n > 0,
    ensures
        t matches FieldType::Primative(k) ==> init_toks(t, None) == (if k == Scalar::Bool {
            seq![ident_v("false"@)]
        } else {
            seq![lit_v("0"@)]
        }),
        t is RefStr ==> init_toks(t, None) == safe_copy_of(seq![lit_v("\"\""@)]),
        padded_text(Seq::<u8>::empty(), n) == Seq::new(n, |i: int| 0u8),
{
    assert(padded_text(Seq::<u8>::empty(), n) =~= Seq::new(n, |i: int| 0u8));
}

/// Rendering a field keeps its passed-through lines in their order and drops
/// the lines of this library: with one recognized line and one other line,
/// in either order, only the other line is written.
pub proof fn lemma_attribute_pass_through(f: Field, o: AttributeOurs, d: AttributeDoc)
    requires
        f.attributes.0@ == seq![Attribute::Ours(o), Attribute::Ignore(d)] || f.attributes.0@ == seq![
            Attribute::Ignore(d),
            Attribute::Ours(o),
        ],
    ensures
        field_toks(f) == doc_toks(d) + bare_field_toks(f),
{
    let s = f.attributes.0@;
    assert(s.drop_last().drop_last() =~= Seq::<Attribute>::empty());
    assert(kept_attrs(s.drop_last().drop_last()) == Seq::<TokV>::empty());
    if s == seq![Attribute::Ours(o), Attribute::Ignore(d)] {
        assert(s.drop_last() =~= seq![Attribute::Ours(o)]);
        assert(kept_attrs(s.drop_last()) =~= Seq::<TokV>::empty());
        assert(kept_attrs(s) =~= doc_toks(d));
    } else {
        assert(s.drop_last() =~= seq![Attribute::Ignore(d)]);
        assert(kept_attrs(s.drop_last()) =~= doc_toks(d));
        assert(kept_attrs(s) =~= doc_toks(d));
    }
}

/// Whether a type holds a reference into outside storage anywhere: text
/// borrowed from the decoded bytes, or a record path with generic
/// arguments.
pub open spec fn borrows(t: FieldType) -> bool
    decreases t,
{
    match t {
        FieldType::RefStr(_) => true,
        FieldType::Struct(p) => p.generics is Some,
        FieldType::Primative(_) => false,
        FieldType::Array(a) => borrows(*a.ty),
    }
}

/// The number of nested array levels of a type.
pub open spec fn array_depth(t: FieldType) -> nat
    decreases t,
{
    match t {
        FieldType::Array(a) => 1 + array_depth(*a.ty),
        _ => 0,
    }
}

/// The owned form of any type, however deeply its arrays nest, holds no
/// borrowed text and no generic record path, and keeps every array level of
/// the type (bounded text adding one level of bytes).
pub proof fn lemma_stackify_owns(t: FieldType, len: u64, r: FieldType)
    requires
        stackified(t, len, r),
    ensures
        !borrows(r),
        array_depth(r) == array_depth(t) + if innermost_text(t) { 1nat } else { 0nat },
    decreases t,
{
    match t {
        FieldType::Array(a) => {
            let b = r->Array_0;
            lemma_stackify_owns(*a.ty, len, *b.ty);
            assert(borrows(r) == borrows(*b.ty));
        },
        FieldType::RefStr(_) => {
            let b = r->Array_0;
            assert(*b.ty == FieldType::Primative(Scalar::U8));
            assert(!borrows(*b.ty));
            assert(borrows(r) == borrows(*b.ty));
            assert(array_depth(*b.ty) == 0);
        },
        FieldType::Struct(p) => {
            assert(r->Struct_0.generics is None);
        },
        FieldType::Primative(_) => {},
    }
}

/// Whether the innermost element of a type is bounded text.
pub open spec fn innermost_text(t: FieldType) -> bool
    decreases t,
{
    match t {
        FieldType::RefStr(_) => true,
        FieldType::Array(a) => innermost_text(*a.ty),
        _ => false,
    }
}

} // verus!
