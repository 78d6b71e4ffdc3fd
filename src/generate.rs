//! The expressions that generated items are built from: the initializer of
//! a value in the owned shape, and the two conversions between the wire and
//! owned shapes.
use vstd::prelude::*;
use crate::attributes::{DefaultLit, is_array_toks};
use crate::field::{FieldType, Scalar};
use crate::path::colon2;
use crate::token::{
    Tok, TokKind, TokV, close_v, dec_digits, extend_toks, ident_v, open_v, punct_v, push_tok, tv,
    views,
};

verus! {

pub open spec fn lit_v(text: Seq<char>) -> TokV {
    tv(TokKind::Lit, text, false)
}

/// `a::b::c` written with the given identifiers.
pub open spec fn path3(a: Seq<char>, b: Seq<char>, c: Seq<char>) -> Seq<TokV> {
    seq![ident_v(a)] + colon2() + seq![ident_v(b)] + colon2() + seq![ident_v(c)]
}

/// `f ( arg )` where `f` is given as tokens.
pub open spec fn call(f: Seq<TokV>, arg: Seq<TokV>) -> Seq<TokV> {
    f + seq![open_v('(')] + arg + seq![close_v(')')]
}

/// `serde_bindgen_core::SafeCopy::safe_copy(& e)`: the truncating copy into a buffer.
pub open spec fn safe_copy_of(e: Seq<TokV>) -> Seq<TokV> {
    call(path3("serde_bindgen_core"@, "SafeCopy"@, "safe_copy"@), seq![punct_v('&', false)] + e)
}

/// `serde_bindgen_core::copy::text_of(& e)`: the text held in a buffer.
pub open spec fn text_of(e: Seq<TokV>) -> Seq<TokV> {
    call(path3("serde_bindgen_core"@, "copy"@, "text_of"@), seq![punct_v('&', false)] + e)
}

/// `From::from(& e)`: a record's own conversion.
pub open spec fn from_of(e: Seq<TokV>) -> Seq<TokV> {
    call(seq![ident_v("From"@)] + colon2() + seq![ident_v("from"@)], seq![punct_v('&', false)] + e)
}

/// `Default::default()`.
pub open spec fn default_call() -> Seq<TokV> {
    call(seq![ident_v("Default"@)] + colon2() + seq![ident_v("default"@)], Seq::empty())
}

/// `f(0), f(1), ..., f(n - 1)`.
pub open spec fn joined(n: nat, f: spec_fn(nat) -> Seq<TokV>) -> Seq<TokV>
    decreases n,
{
    if n == 0 {
        Seq::empty()
    } else {
        joined((n - 1) as nat, f) + (if n > 1 { seq![punct_v(',', false)] } else { Seq::empty() }) + f(
            (n - 1) as nat,
        )
    }
}

/// `[ f(0), ..., f(n - 1) ]`.
pub open spec fn bracketed(n: nat, f: spec_fn(nat) -> Seq<TokV>) -> Seq<TokV> {
    seq![open_v('[')] + joined(n, f) + seq![close_v(']')]
}

/// `e [ i ]`.
pub open spec fn indexed(e: Seq<TokV>, i: nat) -> Seq<TokV> {
    e + seq![open_v('['), lit_v(dec_digits(i)), close_v(']')]
}

/// The initializer of a value of type `t` in the owned shape, given the
/// tokens of the field's `default` line, if any: the default copied into the
/// buffer for text (empty text without one); the record's own default; the
/// default itself for a scalar, else `0` (`false` for `bool`); for an array,
/// an array literal default as it stands, else the element's initializer
/// repeated.
pub open spec fn init_toks(t: FieldType, d: Option<Seq<TokV>>) -> Seq<TokV>
    decreases t,
{
    match t {
        FieldType::RefStr(_) => safe_copy_of(
            match d {
                Some(e) => e,
                None => seq![lit_v("\"\""@)],
            },
        ),
        FieldType::Struct(_) => default_call(),
        FieldType::Primative(k) => match d {
            Some(e) => e,
            None => if k == Scalar::Bool { seq![ident_v("false"@)] } else { seq![lit_v("0"@)] },
        },
        FieldType::Array(a) => if d is Some && is_array_toks(d->0) {
            d->0
        } else {
            bracketed(a.n as nat, |i: nat| init_toks(*a.ty, d))
        },
    }
}

/// The expression converting the wire value `e` of type `t` to the owned
/// shape: text is copied into its buffer, records convert themselves,
/// scalars are copied, arrays convert element by element.
pub open spec fn to_owned_toks(t: FieldType, e: Seq<TokV>) -> Seq<TokV>
    decreases t, 0nat,
{
    match t {
        FieldType::RefStr(_) => safe_copy_of(e),
        FieldType::Struct(_) => from_of(e),
        FieldType::Primative(_) => e,
        FieldType::Array(a) => seq![open_v('[')] + owned_elems(*a.ty, e, a.n as nat) + seq![close_v(']')],
    }
}

/// The converted elements `0..n` of the array `e`, comma-separated.
pub open spec fn owned_elems(t: FieldType, e: Seq<TokV>, n: nat) -> Seq<TokV>
    decreases t, n + 1,
{
    if n == 0 {
        Seq::empty()
    } else {
        owned_elems(t, e, (n - 1) as nat) + (if n > 1 { seq![punct_v(',', false)] } else { Seq::empty() })
            + to_owned_toks(t, indexed(e, (n - 1) as nat))
    }
}

/// The expression converting the owned value `e` of type `t` back to the
/// wire shape: a buffer is read as text, records convert themselves, scalars
/// are copied, arrays convert element by element.
pub open spec fn to_wire_toks(t: FieldType, e: Seq<TokV>) -> Seq<TokV>
    decreases t, 0nat,
{
    match t {
        FieldType::RefStr(_) => text_of(e),
        FieldType::Struct(_) => from_of(e),
        FieldType::Primative(_) => e,
        FieldType::Array(a) => seq![open_v('[')] + wire_elems(*a.ty, e, a.n as nat) + seq![close_v(']')],
    }
}

/// The elements `0..n` of the owned array `e` converted back, comma-separated.
pub open spec fn wire_elems(t: FieldType, e: Seq<TokV>, n: nat) -> Seq<TokV>
    decreases t, n + 1,
{
    if n == 0 {
        Seq::empty()
    } else {
        wire_elems(t, e, (n - 1) as nat) + (if n > 1 { seq![punct_v(',', false)] } else { Seq::empty() })
            + to_wire_toks(t, indexed(e, (n - 1) as nat))
    }
}

fn push_path3(r: &mut Vec<Tok>, a: &str, b: &str, c: &str)
    ensures
        views(final(r)@) == views(old(r)@) + path3(a@, b@, c@),
{
    let ghost start = views(r@);
    push_tok(r, Tok::ident(a));
    push_tok(r, Tok::punct_joint(':'));
    push_tok(r, Tok::punct(':'));
    push_tok(r, Tok::ident(b));
    push_tok(r, Tok::punct_joint(':'));
    push_tok(r, Tok::punct(':'));
    push_tok(r, Tok::ident(c));
    assert(views(r@) =~= start + path3(a@, b@, c@));
}

fn push_colon2(r: &mut Vec<Tok>)
    ensures
        views(final(r)@) == views(old(r)@) + colon2(),
{
    let ghost start = views(r@);
    push_tok(r, Tok::punct_joint(':'));
    push_tok(r, Tok::punct(':'));
    assert(views(r@) =~= start + colon2());
}

/// Appends `f ( & e )` where `f` is a three-segment path.
fn push_call_ref(r: &mut Vec<Tok>, a: &str, b: &str, c: &str, e: &Vec<Tok>)
    ensures
        views(final(r)@) == views(old(r)@) + call(path3(a@, b@, c@), seq![punct_v('&', false)] + views(e@)),
{
    let ghost start = views(r@);
    push_path3(r, a, b, c);
    push_tok(r, Tok::open('('));
    push_tok(r, Tok::punct('&'));
    extend_toks(r, e);
    push_tok(r, Tok::close(')'));
    assert(views(r@) =~= start + call(path3(a@, b@, c@), seq![punct_v('&', false)] + views(e@)));
}

fn push_from_ref(r: &mut Vec<Tok>, e: &Vec<Tok>)
    ensures
        views(final(r)@) == views(old(r)@) + from_of(views(e@)),
{
    let ghost start = views(r@);
    push_tok(r, Tok::ident("From"));
    push_colon2(r);
    push_tok(r, Tok::ident("from"));
    push_tok(r, Tok::open('('));
    push_tok(r, Tok::punct('&'));
    extend_toks(r, e);
    push_tok(r, Tok::close(')'));
    assert(views(r@) =~= start + from_of(views(e@)));
}

fn push_default_call(r: &mut Vec<Tok>)
    ensures
        views(final(r)@) == views(old(r)@) + default_call(),
{
    let ghost start = views(r@);
    push_tok(r, Tok::ident("Default"));
    push_colon2(r);
    push_tok(r, Tok::ident("default"));
    push_tok(r, Tok::open('('));
    push_tok(r, Tok::close(')'));
    assert(views(r@) =~= start + default_call());
}

fn index_expr(e: &Vec<Tok>, i: u64) -> (r: Vec<Tok>)
    ensures
        views(r@) == indexed(views(e@), i as nat),
{
    let mut r: Vec<Tok> = Vec::new();
    assert(views(r@) =~= Seq::<TokV>::empty());
    extend_toks(&mut r, e);
    push_tok(&mut r, Tok::open('['));
    push_tok(&mut r, Tok::int_lit(i));
    push_tok(&mut r, Tok::close(']'));
    assert(views(r@) =~= indexed(views(e@), i as nat));
    r
}

impl FieldType {
    /// The initializer of a value of this type in the owned shape, given the
    /// field's `default` value.
    pub fn assignment_tokens(&self, default: Option<&DefaultLit>) -> (r: Vec<Tok>)
        ensures
            views(r@) == init_toks(
                *self,
                match default {
                    Some(d) => Some(views(d.0@)),
                    None => None,
                },
            ),
        decreases self,
    {
        let ghost d = match default {
            Some(d) => Some(views(d.0@)),
            None => None::<Seq<TokV>>,
        };
        let mut r: Vec<Tok> = Vec::new();
        assert(views(r@) =~= Seq::<TokV>::empty());
        match self {
            FieldType::RefStr(_) => {
                match default {
                    Some(e) => push_call_ref(&mut r, "serde_bindgen_core", "SafeCopy", "safe_copy", &e.0),
                    None => {
                        let mut e: Vec<Tok> = Vec::new();
                        push_tok(&mut e, Tok::new(TokKind::Lit, "\"\"", false));
                        assert(views(e@) =~= seq![lit_v("\"\""@)]);
                        push_call_ref(&mut r, "serde_bindgen_core", "SafeCopy", "safe_copy", &e);
                    },
                }
            },
            FieldType::Struct(_) => push_default_call(&mut r),
            FieldType::Primative(k) => match default {
                Some(e) => extend_toks(&mut r, &e.0),
                None => {
                    if *k == Scalar::Bool {
                        push_tok(&mut r, Tok::ident("false"));
                    } else {
                        push_tok(&mut r, Tok::new(TokKind::Lit, "0", false));
                    }
                },
            },
            FieldType::Array(a) => {
                let literal = match default {
                    Some(e) => e.is_array(),
                    None => false,
                };
                if literal {
                    extend_toks(&mut r, &default.unwrap().0);
                } else {
                    let elem = a.ty.assignment_tokens(default);
                    let ghost f = |i: nat| init_toks(*a.ty, d);
                    push_tok(&mut r, Tok::open('['));
                    let mut i: u64 = 0;
                    while i < a.n
                        invariant
                            i <= a.n,
                            views(elem@) == init_toks(*a.ty, d),
                            forall|j: nat| #[trigger] f(j) == init_toks(*a.ty, d),
                            views(r@) == seq![open_v('[')] + joined(i as nat, f),
                        decreases a.n - i,
                    {
                        let ghost prev = views(r@);
                        if i > 0 {
                            push_tok(&mut r, Tok::punct(','));
                        }
                        let ghost mid = views(r@);
                        extend_toks(&mut r, &elem);
                        proof {
                            let sep: Seq<TokV> = if i > 0 { seq![punct_v(',', false)] } else { Seq::empty() };
                            assert(mid =~= prev + sep);
                            assert(f(i as nat) == init_toks(*a.ty, d));
                            assert(joined((i + 1) as nat, f) == joined(i as nat, f) + sep + f(i as nat));
                            assert(views(r@) =~= seq![open_v('[')] + joined((i + 1) as nat, f));
                        }
                        i = i + 1;
                    }
                    push_tok(&mut r, Tok::close(']'));
                    assert(views(r@) =~= bracketed(a.n as nat, f));
                }
            },
        }
        assert(views(r@) =~= init_toks(*self, d));
        r
    }

    /// The expression converting the wire value `expr` to the owned shape.
    pub fn from_tokens(&self, expr: &Vec<Tok>) -> (r: Vec<Tok>)
        ensures
            views(r@) == to_owned_toks(*self, views(expr@)),
        decreases self,
    {
        let mut r: Vec<Tok> = Vec::new();
        assert(views(r@) =~= Seq::<TokV>::empty());
        match self {
            FieldType::RefStr(_) => push_call_ref(&mut r, "serde_bindgen_core", "SafeCopy", "safe_copy", expr),
            FieldType::Struct(_) => push_from_ref(&mut r, expr),
            FieldType::Primative(_) => extend_toks(&mut r, expr),
            FieldType::Array(a) => {
                proof {
                    assert(decreases_to!(*self => *a));
                    assert(decreases_to!(*a => a.ty));
                    assert(decreases_to!(*self => *a.ty));
                }
                let ghost ev = views(expr@);
                push_tok(&mut r, Tok::open('['));
                let mut i: u64 = 0;
                while i < a.n
                    invariant
                        i <= a.n,
                        *self == FieldType::Array(*a),
                        decreases_to!(*self => *a.ty),
                        ev == views(expr@),
                        views(r@) == seq![open_v('[')] + owned_elems(*a.ty, ev, i as nat),
                    decreases a.n - i,
                {
                    let ghost prev = views(r@);
                    if i > 0 {
                        push_tok(&mut r, Tok::punct(','));
                    }
                    let ghost mid = views(r@);
                    let e = index_expr(expr, i);
                    let elem = a.ty.from_tokens(&e);
                    extend_toks(&mut r, &elem);
                    proof {
                        let sep: Seq<TokV> = if i > 0 { seq![punct_v(',', false)] } else { Seq::empty() };
                        assert(mid =~= prev + sep);
                        assert(owned_elems(*a.ty, ev, (i + 1) as nat) == owned_elems(*a.ty, ev, i as nat) + sep + to_owned_toks(*a.ty, indexed(ev, i as nat)));
                        assert(views(r@) =~= seq![open_v('[')] + owned_elems(*a.ty, ev, (i + 1) as nat));
                    }
                    i = i + 1;
                }
                push_tok(&mut r, Tok::close(']'));
                                assert(views(r@) =~= to_owned_toks(*self, views(expr@)));
            },
        }
        assert(views(r@) =~= to_owned_toks(*self, views(expr@)));
        r
    }

    /// The expression converting the owned value `expr` back to the wire
    /// shape.
    pub fn from_owned_tokens(&self, expr: &Vec<Tok>) -> (r: Vec<Tok>)
        ensures
            views(r@) == to_wire_toks(*self, views(expr@)),
        decreases self,
    {
        let mut r: Vec<Tok> = Vec::new();
        assert(views(r@) =~= Seq::<TokV>::empty());
        match self {
            FieldType::RefStr(_) => push_call_ref(&mut r, "serde_bindgen_core", "copy", "text_of", expr),
            FieldType::Struct(_) => push_from_ref(&mut r, expr),
            FieldType::Primative(_) => extend_toks(&mut r, expr),
            FieldType::Array(a) => {
                proof {
                    assert(decreases_to!(*self => *a));
                    assert(decreases_to!(*a => a.ty));
                    assert(decreases_to!(*self => *a.ty));
                }
                let ghost ev = views(expr@);
                push_tok(&mut r, Tok::open('['));
                let mut i: u64 = 0;
                while i < a.n
                    invariant
                        i <= a.n,
                        *self == FieldType::Array(*a),
                        decreases_to!(*self => *a.ty),
                        ev == views(expr@),
                        views(r@) == seq![open_v('[')] + wire_elems(*a.ty, ev, i as nat),
                    decreases a.n - i,
                {
                    let ghost prev = views(r@);
                    if i > 0 {
                        push_tok(&mut r, Tok::punct(','));
                    }
                    let ghost mid = views(r@);
                    let e = index_expr(expr, i);
                    let elem = a.ty.from_owned_tokens(&e);
                    extend_toks(&mut r, &elem);
                    proof {
                        let sep: Seq<TokV> = if i > 0 { seq![punct_v(',', false)] } else { Seq::empty() };
                        assert(mid =~= prev + sep);
                        assert(wire_elems(*a.ty, ev, (i + 1) as nat) == wire_elems(*a.ty, ev, i as nat) + sep + to_wire_toks(*a.ty, indexed(ev, i as nat)));
                        assert(views(r@) =~= seq![open_v('[')] + wire_elems(*a.ty, ev, (i + 1) as nat));
                    }
                    i = i + 1;
                }
                push_tok(&mut r, Tok::close(']'));
                                assert(views(r@) =~= to_wire_toks(*self, views(expr@)));
            },
        }
        assert(views(r@) =~= to_wire_toks(*self, views(expr@)));
        r
    }
}

} // verus!
