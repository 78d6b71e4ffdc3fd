//! Field types: their classification, the owned ("stackified") form, and
//! worst-case encoded sizes.
use vstd::prelude::*;
use crate::attributes::{Attribute, Attributes, first_len, len_or_zero, parse_attribute, doc_toks};
use crate::error::{ErrorKind, ParseError};
use crate::literal::{int_lit_read, integer_literal_value};
use crate::path::{PathNamed, path_toks, renamed_bare};
use crate::token::{
    Tok, TokKind, TokV, close_v, dec_digits, extend_toks, ident_v, is_close_v, is_ident_v, is_open_v,
    is_punct_v, open_v, punct_v, same_tok, same_toks, tv, views,
};

verus! {

/// The fixed-width scalar types.
#[derive(Clone, Copy, PartialEq, Eq, Debug, Structural)]
pub enum Scalar {
    I8,
    I16,
    I32,
    U8,
    U16,
    U32,
    Bool,
}

pub open spec fn scalar_text(k: Scalar) -> Seq<char> {
    match k {
        Scalar::I8 => "i8"@,
        Scalar::I16 => "i16"@,
        Scalar::I32 => "i32"@,
        Scalar::U8 => "u8"@,
        Scalar::U16 => "u16"@,
        Scalar::U32 => "u32"@,
        Scalar::Bool => "bool"@,
    }
}

/// The scalar type a name denotes, if any.
pub open spec fn scalar_named(name: Seq<char>) -> Option<Scalar> {
    if name == "i8"@ {
        Some(Scalar::I8)
    } else if name == "i16"@ {
        Some(Scalar::I16)
    } else if name == "i32"@ {
        Some(Scalar::I32)
    } else if name == "u8"@ {
        Some(Scalar::U8)
    } else if name == "u16"@ {
        Some(Scalar::U16)
    } else if name == "u32"@ {
        Some(Scalar::U32)
    } else if name == "bool"@ {
        Some(Scalar::Bool)
    } else {
        None
    }
}

/// The widest text the encoding writes for a value of the type: the longest
/// decimal number of its range, sign included, or `false`.
pub open spec fn scalar_width(k: Scalar) -> nat {
    match k {
        Scalar::I8 => 4,
        Scalar::I16 => 6,
        Scalar::I32 => 11,
        Scalar::U8 => 3,
        Scalar::U16 => 5,
        Scalar::U32 => 10,
        Scalar::Bool => 5,
    }
}

impl Scalar {
    pub fn from_name(name: &String) -> (r: Option<Scalar>)
        ensures
            r == scalar_named(name@),
    {
        let t = crate::token::text_is(name, "i8");
        if t {
            Some(Scalar::I8)
        } else if crate::token::text_is(name, "i16") {
            Some(Scalar::I16)
        } else if crate::token::text_is(name, "i32") {
            Some(Scalar::I32)
        } else if crate::token::text_is(name, "u8") {
            Some(Scalar::U8)
        } else if crate::token::text_is(name, "u16") {
            Some(Scalar::U16)
        } else if crate::token::text_is(name, "u32") {
            Some(Scalar::U32)
        } else if crate::token::text_is(name, "bool") {
            Some(Scalar::Bool)
        } else {
            None
        }
    }

    pub fn name(&self) -> (r: &'static str)
        ensures
            r@ == scalar_text(*self),
    {
        match self {
            Scalar::I8 => "i8",
            Scalar::I16 => "i16",
            Scalar::I32 => "i32",
            Scalar::U8 => "u8",
            Scalar::U16 => "u16",
            Scalar::U32 => "u32",
            Scalar::Bool => "bool",
        }
    }

    pub fn width(&self) -> (r: u64)
        ensures
            r == scalar_width(*self),
    {
        match self {
            Scalar::I8 => 4,
            Scalar::I16 => 6,
            Scalar::I32 => 11,
            Scalar::U8 => 3,
            Scalar::U16 => 5,
            Scalar::U32 => 10,
            Scalar::Bool => 5,
        }
    }
}

/// `&'lifetime str`: bounded text borrowed from the decoded bytes.
pub struct FieldTypeRef {
    pub lifetime: String,
}

/// `[ty; n]`.
pub struct FieldTypeArray {
    pub ty: Box<FieldType>,
    /// The count as written.
    pub len: Tok,
    /// Its value.
    pub n: u64,
}

/// The shape of a field.
pub enum FieldType {
    RefStr(FieldTypeRef),
    Struct(PathNamed),
    Primative(Scalar),
    Array(FieldTypeArray),
}

/// The tokens a type is written as.
pub open spec fn type_toks(t: FieldType) -> Seq<TokV>
    decreases t,
{
    match t {
        FieldType::RefStr(r) => seq![
            punct_v('&', false),
            punct_v('\'', true),
            ident_v(r.lifetime@),
            ident_v("str"@),
        ],
        FieldType::Struct(p) => path_toks(p),
        FieldType::Primative(k) => seq![ident_v(scalar_text(k))],
        FieldType::Array(a) => seq![open_v('[')] + type_toks(*a.ty) + seq![
            punct_v(';', false),
            a.len@,
            close_v(']'),
        ],
    }
}

/// Where a field type written from `pos` on ends, by the classification
/// order of `FieldType::parse`; `None` where none is written there.
pub open spec fn type_end(v: Seq<TokV>, pos: int) -> Option<int>
    decreases v.len() - pos,
{
    if pos < 0 || pos >= v.len() {
        None
    } else if is_punct_v(v[pos], '&') && pos + 1 < v.len() && is_punct_v(v[pos + 1], '\'') {
        if pos + 3 < v.len() && v[pos + 2].kind == TokKind::Ident && is_ident_v(v[pos + 3], "str"@) {
            Some(pos + 4)
        } else {
            None
        }
    } else if is_punct_v(v[pos], ':') || v[pos].kind == TokKind::Ident {
        crate::path::path_end(v, pos)
    } else if is_open_v(v[pos], '[') {
        match type_end(v, pos + 1) {
            Some(i) => if 0 <= i && i + 2 < v.len() && is_punct_v(v[i], ';') && v[i + 1].kind == TokKind::Lit
                && int_lit_read(v[i + 1].text) is Some && is_close_v(v[i + 2], ']') {
                Some(i + 3)
            } else {
                None
            },
            None => None,
        }
    } else {
        None
    }
}

/// The error reported where no field type is written from `pos` on: an
/// unsupported type at the token that starts it (or at the name a reference
/// points to, where that is not `str`), otherwise a syntax error at the
/// first token that breaks the type.
pub open spec fn type_error(v: Seq<TokV>, pos: int) -> ParseError
    decreases v.len() - pos,
{
    if pos < 0 || pos >= v.len() {
        crate::path::syntax_at(pos)
    } else if is_punct_v(v[pos], '&') && pos + 1 < v.len() && is_punct_v(v[pos + 1], '\'') {
        if !(pos + 3 < v.len() && v[pos + 2].kind == TokKind::Ident) {
            crate::path::syntax_at(pos + 2)
        } else {
            ParseError { kind: ErrorKind::UnsupportedType, pos: (pos + 3) as usize }
        }
    } else if is_punct_v(v[pos], ':') || v[pos].kind == TokKind::Ident {
        crate::path::path_error(v, pos)
    } else if is_open_v(v[pos], '[') {
        match type_end(v, pos + 1) {
            Some(i) => if !(0 <= i && i + 2 < v.len() && is_punct_v(v[i], ';')) {
                crate::path::syntax_at(i)
            } else if !(v[i + 1].kind == TokKind::Lit && int_lit_read(v[i + 1].text) is Some) {
                crate::path::syntax_at(i + 1)
            } else {
                crate::path::syntax_at(i + 2)
            },
            None => type_error(v, pos + 1),
        }
    } else {
        ParseError { kind: ErrorKind::UnsupportedType, pos: pos as usize }
    }
}

/// Whether `t` holds each scalar type as a scalar: no record path in it is
/// a bare scalar name.
pub open spec fn classified(t: FieldType) -> bool
    decreases t,
{
    match t {
        FieldType::Struct(p) => !(path_toks(p).len() == 1 && scalar_named(p.ident@) is Some),
        FieldType::Array(a) => classified(*a.ty),
        _ => true,
    }
}

/// Every array count in `t` agrees with the literal it is written as.
pub open spec fn counts_agree(t: FieldType) -> bool
    decreases t,
{
    match t {
        FieldType::Array(a) => a.len.kind == TokKind::Lit && int_lit_read(a.len.text@) == Some(a.n)
            && counts_agree(*a.ty),
        _ => true,
    }
}

/// `r` is the owned form of `t`, where bounded text becomes `len` bytes:
/// text becomes `[u8; len]`, a record path its `Owned` counterpart without
/// generics, an array the array of the owned element; scalars stay.
pub open spec fn stackified(t: FieldType, len: u64, r: FieldType) -> bool
    decreases t,
{
    match t {
        FieldType::RefStr(_) => r matches FieldType::Array(a) && a.n == len && *a.ty
            == FieldType::Primative(Scalar::U8) && a.len@ == tv(
            TokKind::Lit,
            dec_digits(len as nat),
            false,
        ),
        FieldType::Struct(p) => r matches FieldType::Struct(q) && renamed_bare(
            p,
            q,
            p.ident@ + "Owned"@,
        ),
        FieldType::Primative(k) => r == FieldType::Primative(k),
        FieldType::Array(a) => r matches FieldType::Array(b) && b.n == a.n && b.len == a.len
            && stackified(*a.ty, len, *b.ty),
    }
}

/// The worst-case encoded size of a value of `t`, apart from the sizes of
/// other records, which `remote_of` accounts for.
pub open spec fn weight_of(t: FieldType, len: nat) -> nat
    decreases t,
{
    match t {
        FieldType::RefStr(_) => len + 2,
        FieldType::Struct(_) => 0,
        FieldType::Primative(k) => scalar_width(k),
        FieldType::Array(a) => (a.n * weight_of(*a.ty, len) + (if a.n > 0 { (a.n - 1) as nat } else { 0 }) + 2) as nat,
    }
}

/// The record whose size constant a value of `t` depends on, and how many
/// times: one for a record, times the count of each enclosing array.
pub open spec fn remote_of(t: FieldType) -> Option<(PathNamed, nat)>
    decreases t,
{
    match t {
        FieldType::RefStr(_) => None,
        FieldType::Struct(p) => Some((p, 1)),
        FieldType::Primative(_) => None,
        FieldType::Array(a) => match remote_of(*a.ty) {
            Some((p, m)) => Some((p, (a.n * m) as nat)),
            None => None,
        },
    }
}

/// Whether every size and multiplicity met while weighing `t` fits in a
/// `u64`.
pub open spec fn weight_fits(t: FieldType, len: nat) -> bool
    decreases t,
{
    match t {
        FieldType::RefStr(_) => len + 2 <= u64::MAX,
        FieldType::Struct(_) => true,
        FieldType::Primative(_) => true,
        FieldType::Array(a) => weight_fits(*a.ty, len) && a.n * weight_of(*a.ty, len) <= u64::MAX
            && weight_of(t, len) <= u64::MAX && (remote_of(t) matches Some((_, m)) ==> m <= u64::MAX),
    }
}

/// `a` and `b` are the same type.
pub open spec fn type_eq(a: FieldType, b: FieldType) -> bool
    decreases a,
{
    match (a, b) {
        (FieldType::RefStr(x), FieldType::RefStr(y)) => x.lifetime == y.lifetime,
        (FieldType::Struct(p), FieldType::Struct(q)) => crate::path::path_eq(p, q),
        (FieldType::Primative(k), FieldType::Primative(j)) => k == j,
        (FieldType::Array(x), FieldType::Array(y)) => x.n == y.n && x.len == y.len && type_eq(*x.ty, *y.ty),
        _ => false,
    }
}

impl Clone for FieldType {
    fn clone(&self) -> (r: FieldType)
        ensures
            type_eq(r, *self),
        decreases self,
    {
        match self {
            FieldType::RefStr(r) => FieldType::RefStr(FieldTypeRef { lifetime: r.lifetime.clone() }),
            FieldType::Struct(p) => FieldType::Struct(p.clone_path()),
            FieldType::Primative(k) => FieldType::Primative(*k),
            FieldType::Array(a) => FieldType::Array(
                FieldTypeArray { ty: Box::new((*a.ty).clone()), len: a.len.clone(), n: a.n },
            ),
        }
    }
}

impl FieldType {
    /// Classifies the type written at `pos`, first match winning: `&'a str`
    /// is bounded text; a path with `::` is a record; a bare scalar name is a
    /// scalar; another name is a record; `[ty; n]` is an array. Anything else
    /// is an unsupported type.
    #[verifier::rlimit(100)]
    pub fn parse(s: &Vec<Tok>, pos: usize) -> (r: Result<(FieldType, usize), ParseError>)
        requires
            pos <= s@.len(),
        ensures
            r matches Ok((t, end)) ==> pos < end <= s@.len() && same_toks(
                views(s@).subrange(pos as int, end as int),
                type_toks(t),
            ) && counts_agree(t),
            r is Ok <==> type_end(views(s@), pos as int) is Some,
            r matches Ok((t, _)) ==> classified(t),
            r matches Err(e) ==> e == type_error(views(s@), pos as int),
            r matches Ok((_, end)) ==> type_end(views(s@), pos as int) == Some(end as int),
            r matches Ok((t, end)) ==> (t is Primative <==> end == pos + 1 && scalar_named(
                s@[pos as int].text@,
            ) is Some),
            crate::path::bare_name_at(s@, pos as int) ==> (r matches Ok((t, end)) && end == pos + 1
                && match scalar_named(s@[pos as int].text@) {
                Some(k) => t == FieldType::Primative(k),
                None => (t matches FieldType::Struct(p) && p.ident@ == s@[pos as int].text@),
            }),
            pos + 3 < s@.len() && is_punct_v(s@[pos as int]@, '&') && is_punct_v(s@[pos + 1]@, '\'')
                && s@[pos + 2].kind == TokKind::Ident && is_ident_v(s@[pos + 3]@, "str"@) ==> (r matches Ok(
                (t, end),
            ) && end == pos + 4 && (t matches FieldType::RefStr(x) && x.lifetime@ == s@[pos + 2].text@)),
            pos < s@.len() && !is_punct_v(s@[pos as int]@, '&') && !is_punct_v(s@[pos as int]@, ':')
                && s@[pos as int].kind != TokKind::Ident && !is_open_v(s@[pos as int]@, '[')
                ==> r == Err::<(FieldType, usize), ParseError>(
                ParseError { kind: ErrorKind::UnsupportedType, pos },
            ),
        decreases s@.len() - pos,
    {
        let n = s.len();
        if pos >= n {
            return Err(ParseError::syntax(pos));
        }
        proof {
            let v = views(s@);
            assert(v[pos as int] == s@[pos as int]@);
            if pos + 1 < n {
                assert(v[pos + 1] == s@[pos + 1]@);
            }
            if pos + 3 < n {
                assert(v[pos + 2] == s@[pos + 2]@ && v[pos + 3] == s@[pos + 3]@);
            }
        }
        if s[pos].is_punct_char('&') && pos + 1 < n && s[pos + 1].is_punct_char('\'') {
            if n - pos <= 3 || s[pos + 2].kind != TokKind::Ident {
                return Err(ParseError::syntax(pos + 2));
            }
            if !s[pos + 3].is_ident("str") {
                return Err(ParseError { kind: ErrorKind::UnsupportedType, pos: pos + 3 });
            }
            let t = FieldType::RefStr(FieldTypeRef { lifetime: s[pos + 2].text.clone() });
            assert(same_toks(views(s@).subrange(pos as int, pos + 4), type_toks(t)));
            return Ok((t, pos + 4));
        }
        if s[pos].is_punct_char(':') || s[pos].kind == TokKind::Ident {
            match PathNamed::parse(s, pos) {
                Ok((p, end)) => {
                    if end == pos + 1 && !p.leading_colon {
                        assert(views(s@).subrange(pos as int, end as int)[0] == s@[pos as int]@);
                        assert(p.segments@.len() == 0) by {
                            if p.segments@.len() > 0 {
                                crate::path::lemma_segments_len(p.segments@);
                            }
                        }
                        let k = Scalar::from_name(&p.ident);
                        if let Some(k) = k {
                            let t = FieldType::Primative(k);
                            proof {
                                assert(path_toks(p)[0] == ident_v(p.ident@));
                                assert(same_toks(views(s@).subrange(pos as int, end as int), type_toks(t)));
                            }
                            return Ok((t, end));
                        }
                    }
                    proof {
                        if end == pos + 1 {
                            if p.leading_colon {
                                assert(path_toks(p).len() >= 3);
                            } else {
                                crate::path::lemma_segments_len(p.segments@);
                            }
                        }
                    }
                    return Ok((FieldType::Struct(p), end));
                },
                Err(e) => return Err(e),
            }
        }
        if s[pos].is_char(TokKind::Open, '[') {
            match FieldType::parse(s, pos + 1) {
                Ok((ty, i)) => {
                    proof {
                        let v = views(s@);
                        if i + 2 < n {
                            assert(v[i as int] == s@[i as int]@ && v[i + 1] == s@[i + 1]@ && v[i + 2] == s@[i + 2]@);
                        }
                    }
                    if n - i <= 2 || !s[i].is_punct_char(';') {
                        return Err(ParseError::syntax(i));
                    }
                    if s[i + 1].kind != TokKind::Lit {
                        return Err(ParseError::syntax(i + 1));
                    }
                    let count = match integer_literal_value(s[i + 1].text.as_str()) {
                        Some(c) => c,
                        None => return Err(ParseError::syntax(i + 1)),
                    };
                    if !s[i + 2].is_char(TokKind::Close, ']') {
                        return Err(ParseError::syntax(i + 2));
                    }
                    let ghost inner = ty;
                    let t = FieldType::Array(FieldTypeArray { ty: Box::new(ty), len: s[i + 1].clone(), n: count });
                    proof {
                        let a = views(s@).subrange(pos as int, i + 3);
                        assert(a =~= seq![s@[pos as int]@] + views(s@).subrange(pos + 1, i as int) + seq![
                            s@[i as int]@, s@[i + 1]@, s@[i + 2]@]);
                        let b = type_toks(t);
                        assert(b =~= seq![open_v('[')] + type_toks(inner) + seq![
                            punct_v(';', false), s@[i + 1]@, close_v(']')]);
                        assert(same_toks(a, b)) by {
                            assert forall|j: int| 0 <= j < a.len() implies same_tok(#[trigger] a[j], b[j]) by {
                                if 1 <= j < i - pos {
                                    assert(a[j] == views(s@).subrange(pos + 1, i as int)[j - 1]);
                                    assert(b[j] == type_toks(inner)[j - 1]);
                                }
                            }
                        }
                    }
                    return Ok((t, i + 3));
                },
                Err(e) => return Err(e),
            }
        }
        Err(ParseError { kind: ErrorKind::UnsupportedType, pos })
    }

    /// The type written as tokens.
    pub fn to_tokens(&self) -> (r: Vec<Tok>)
        ensures
            views(r@) == type_toks(*self),
        decreases self,
    {
        let mut r: Vec<Tok> = Vec::new();
        match self {
            FieldType::RefStr(t) => {
                r.push(Tok::punct('&'));
                r.push(Tok::punct_joint('\''));
                r.push(Tok::ident_of(&t.lifetime));
                r.push(Tok::ident("str"));
            },
            FieldType::Struct(p) => {
                r = p.to_tokens();
            },
            FieldType::Primative(k) => {
                r.push(Tok::ident(k.name()));
            },
            FieldType::Array(a) => {
                r.push(Tok::open('['));
                let inner = a.ty.to_tokens();
                assert(views(r@) =~= seq![open_v('[')]);
                extend_toks(&mut r, &inner);
                let ghost mid = views(r@);
                r.push(Tok::punct(';'));
                r.push(a.len.clone());
                r.push(Tok::close(']'));
                assert(views(r@) =~= mid + seq![punct_v(';', false), a.len@, close_v(']')]);
            },
        }
        assert(views(r@) =~= type_toks(*self));
        r
    }

    /// The owned form of the type, where bounded text holds `len` bytes.
    pub fn stackify(&self, len: u64) -> (r: FieldType)
        ensures
            stackified(*self, len, r),
        decreases self,
    {
        match self {
            FieldType::RefStr(_) => FieldType::Array(FieldTypeArray {
                ty: Box::new(FieldType::Primative(Scalar::U8)),
                len: Tok::int_lit(len),
                n: len,
            }),
            FieldType::Struct(p) => FieldType::Struct(p.stackify()),
            FieldType::Primative(k) => FieldType::Primative(*k),
            FieldType::Array(a) => FieldType::Array(FieldTypeArray {
                ty: Box::new(a.ty.stackify(len)),
                len: a.len.clone(),
                n: a.n,
            }),
        }
    }

    /// The worst-case encoded size of a value of the type, bounded text
    /// holding at most `len` bytes, and the record size it depends on; `None`
    /// where a size or multiplicity on the way does not fit in a `u64`.
    pub fn weight(&self, len: u64) -> (r: Option<(u64, Option<(PathNamed, u64)>)>)
        ensures
            r is Some <==> weight_fits(*self, len as nat),
            r matches Some((w, rem)) ==> w == weight_of(*self, len as nat) && match remote_of(*self) {
                Some((p, m)) => rem matches Some((q, k)) && crate::path::path_eq(q, p) && k == m,
                None => rem is None,
            },
        decreases self,
    {
        match self {
            FieldType::RefStr(_) => match len.checked_add(2) {
                Some(w) => Some((w, None)),
                None => None,
            },
            FieldType::Struct(p) => Some((0, Some((p.clone_path(), 1)))),
            FieldType::Primative(k) => Some((k.width(), None)),
            FieldType::Array(a) => {
                let n = a.n;
                let (w, rem) = match a.ty.weight(len) {
                    Some(x) => x,
                    None => return None,
                };
                let nw = match n.checked_mul(w) {
                    Some(x) => x,
                    None => return None,
                };
                let sep: u64 = if n > 0 { n - 1 } else { 0 };
                let total = match nw.checked_add(sep) {
                    Some(x) => match x.checked_add(2) {
                        Some(y) => y,
                        None => return None,
                    },
                    None => return None,
                };
                match rem {
                    Some((p, m)) => match m.checked_mul(n) {
                        Some(k) => {
                            assert(k == n * m) by (nonlinear_arith) requires k == m * n;
                            Some((total, Some((p, k))))
                        },
                        None => {
                            assert(n * m > u64::MAX) by (nonlinear_arith) requires m * n > u64::MAX;
                            None
                        },
                    },
                    None => Some((total, None)),
                }
            },
        }
    }
}

} // verus!
