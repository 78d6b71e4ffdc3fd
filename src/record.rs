//! Fields and record declarations: reading them, writing them back, their
//! owned counterparts and their worst-case encoded sizes.
use vstd::prelude::*;
use vstd::string::StringSliceAdditionalSpecFns;
use crate::attributes::{Attribute, Attributes, doc_shape, doc_toks, len_or_zero, parse_attribute};
use crate::error::{ErrorKind, ParseError};
use crate::field::{FieldType, stackified, type_toks, weight_fits, weight_of, remote_of};
use crate::path::{PathNamed, path_eq, path_toks, renamed_bare};
use crate::token::{
    Tok, TokKind, TokV, close_v, extend_toks, ident_v, is_close_v, is_ident_v, is_open_v,
    is_punct_v, open_v, punct_v, same_tok, same_toks, views,
};

verus! {

/// One field of a record.
pub struct Field {
    pub attributes: Attributes,
    pub is_pub: bool,
    pub ident: String,
    pub ty: FieldType,
}

/// The attribute lines as they were written above a field.
pub open spec fn written_attrs(s: Seq<Attribute>) -> Seq<TokV>
    decreases s.len(),
{
    if s.len() == 0 {
        Seq::empty()
    } else {
        written_attrs(s.drop_last()) + doc_toks(
            match s.last() {
                Attribute::Ours(o) => o.doc,
                Attribute::Ignore(d) => d,
            },
        )
    }
}

/// The attribute lines a field is rendered with: the passed-through ones,
/// in order; recognized lines are dropped.
pub open spec fn kept_attrs(s: Seq<Attribute>) -> Seq<TokV>
    decreases s.len(),
{
    if s.len() == 0 {
        Seq::empty()
    } else {
        kept_attrs(s.drop_last()) + match s.last() {
            Attribute::Ours(_) => Seq::<TokV>::empty(),
            Attribute::Ignore(d) => doc_toks(d),
        }
    }
}

/// `[pub] name: type`.
pub open spec fn bare_field_toks(f: Field) -> Seq<TokV> {
    (if f.is_pub { seq![ident_v("pub"@)] } else { Seq::empty() }) + seq![
        ident_v(f.ident@),
        punct_v(':', false),
    ] + type_toks(f.ty)
}

/// The tokens a field is rendered with.
pub open spec fn field_toks(f: Field) -> Seq<TokV> {
    kept_attrs(f.attributes.0@) + bare_field_toks(f)
}

/// Where the attribute lines written from `i` on end; `None` where a `#`
/// starts a line of another shape.
pub open spec fn attrs_end(v: Seq<TokV>, i: int) -> Option<int>
    decreases v.len() - i,
{
    if 0 <= i < v.len() && is_punct_v(v[i], '#') {
        if i + 6 <= v.len() && doc_shape(v.subrange(i, i + 6)) {
            attrs_end(v, i + 6)
        } else {
            None
        }
    } else if 0 <= i <= v.len() {
        Some(i)
    } else {
        None
    }
}

/// Where a field written from `pos` on ends: its attribute lines, an
/// optional `pub`, a name, `:` and a type.
pub open spec fn field_end(v: Seq<TokV>, pos: int) -> Option<int> {
    match attrs_end(v, pos) {
        Some(a) => {
            let b = if a < v.len() && is_ident_v(v[a], "pub"@) { a + 1 } else { a };
            if b + 2 <= v.len() && v[b].kind == TokKind::Ident && is_punct_v(v[b + 1], ':') {
                crate::field::type_end(v, b + 2)
            } else {
                None
            }
        },
        None => None,
    }
}

/// The error reported where the attribute lines from `i` on break off.
pub open spec fn attrs_error(v: Seq<TokV>, i: int) -> ParseError
    decreases v.len() - i,
{
    if 0 <= i < v.len() && is_punct_v(v[i], '#') && i + 6 <= v.len() && doc_shape(v.subrange(i, i + 6)) {
        attrs_error(v, i + 6)
    } else {
        crate::attributes::attr_error(v, i)
    }
}

/// The error reported where no field is written from `pos` on.
pub open spec fn field_error(v: Seq<TokV>, pos: int) -> ParseError {
    match attrs_end(v, pos) {
        Some(a) => {
            let b = if a < v.len() && is_ident_v(v[a], "pub"@) { a + 1 } else { a };
            if !(b + 2 <= v.len() && v[b].kind == TokKind::Ident) {
                crate::path::syntax_at(b)
            } else if !is_punct_v(v[b + 1], ':') {
                crate::path::syntax_at(b + 1)
            } else {
                crate::field::type_error(v, b + 2)
            }
        },
        None => attrs_error(v, pos),
    }
}

/// The index of the name of the field written from `pos` on.
pub open spec fn field_name_at(v: Seq<TokV>, pos: int) -> int {
    let a = attrs_end(v, pos)->0;
    if a < v.len() && is_ident_v(v[a], "pub"@) { a + 1 } else { a }
}

/// The byte length of a field's name.
pub open spec fn name_bytes(f: Field) -> nat {
    (vstd::utf8::encode_utf8(f.ident@).len() as usize) as nat
}

/// The worst-case size a field contributes: its key written `"name":` and
/// its value.
pub open spec fn field_weight(f: Field) -> nat {
    name_bytes(f) + 3 + weight_of(f.ty, len_or_zero(f.attributes.0@) as nat)
}

/// Reads the attribute lines written from `pos` on: the attributes and the
/// index after them.
fn parse_attrs(s: &Vec<Tok>, pos: usize) -> (r: Result<(Vec<Attribute>, usize), ParseError>)
    requires
        pos <= s@.len(),
    ensures
        r is Ok <==> attrs_end(views(s@), pos as int) is Some,
        r matches Ok((attrs, end)) ==> pos <= end <= s@.len() && attrs_end(views(s@), pos as int) == Some(end as int)
            && same_toks(views(s@).subrange(pos as int, end as int), written_attrs(attrs@)),
        r matches Err(e) ==> e == attrs_error(views(s@), pos as int),
{
    let mut i = pos;
    let mut attributes: Vec<Attribute> = Vec::new();
    while i < s.len() && s[i].is_punct_char('#')
        invariant
            pos <= i <= s@.len(),
            attrs_end(views(s@), pos as int) == attrs_end(views(s@), i as int),
            attrs_end(views(s@), pos as int) is None ==> attrs_error(views(s@), pos as int) == attrs_error(views(s@), i as int),
            same_toks(views(s@).subrange(pos as int, i as int), written_attrs(attributes@)),
        decreases s@.len() - i,
    {
        assert(views(s@)[i as int] == s@[i as int]@);
        match parse_attribute(s, i) {
            Ok((a, end)) => {
                let ghost prev = attributes@;
                attributes.push(a);
                proof {
                    assert(attributes@.drop_last() =~= prev);
                    assert(views(s@).subrange(pos as int, end as int) =~= views(s@).subrange(pos as int, i as int) + views(s@).subrange(i as int, end as int));
                    lemma_same_toks_concat(views(s@).subrange(pos as int, i as int), written_attrs(prev), views(s@).subrange(i as int, end as int), doc_toks(match attributes@.last() { Attribute::Ours(o) => o.doc, Attribute::Ignore(d) => d }));
                }
                i = end;
            },
            Err(e) => return Err(e),
        }
    }
    Ok((attributes, i))
}

impl Field {
    /// The owned form of the field: same name and visibility, its type
    /// stackified with the length its `len` line gives, no attribute lines.
    pub fn stackify(&self) -> (r: Field)
        ensures
            owned_field(*self, r),
    {
        let len = self.attributes.seek_len();
        Field { attributes: Attributes(Vec::new()), is_pub: self.is_pub, ident: self.ident.clone(), ty: self.ty.stackify(len) }
    }

    /// Reads a field at `pos`: its attribute lines, an optional `pub`, the
    /// name, `:` and the type.
    #[verifier::rlimit(100)]
    pub fn parse(s: &Vec<Tok>, pos: usize) -> (r: Result<(Field, usize), ParseError>)
        requires
            pos <= s@.len(),
        ensures
            r matches Ok((f, end)) ==> pos < end <= s@.len() && same_toks(
                views(s@).subrange(pos as int, end as int),
                written_attrs(f.attributes.0@) + bare_field_toks(f),
            ),
            r is Ok <==> field_end(views(s@), pos as int) is Some,
            r matches Ok((_, end)) ==> field_end(views(s@), pos as int) == Some(end as int),
            r matches Ok((f, _)) ==> f.ident@ == views(s@)[field_name_at(views(s@), pos as int)].text,
            r matches Ok((f, _)) ==> crate::field::classified(f.ty),
            r matches Err(e) ==> e == field_error(views(s@), pos as int),
    {
        let (attributes, after_attrs) = match parse_attrs(s, pos) {
            Ok(x) => x,
            Err(e) => return Err(e),
        };
        let mut i = after_attrs;
        let ghost attr_end = i;
        let n = s.len();
        proof {
            if i < n {
                assert(views(s@)[i as int] == s@[i as int]@);
            }
            assert(attrs_end(views(s@), pos as int) == Some(i as int));
        }
        let is_pub = i < n && s[i].is_ident("pub");
        if is_pub {
            i = i + 1;
        }
        proof {
            if i + 1 < n {
                assert(views(s@)[i as int] == s@[i as int]@ && views(s@)[i + 1] == s@[i + 1]@);
            }
        }
        if n - i < 2 || s[i].kind != TokKind::Ident {
            return Err(ParseError::syntax(i));
        }
        let ident = s[i].text.clone();
        assert(i == field_name_at(views(s@), pos as int));
        if !s[i + 1].is_punct_char(':') {
            return Err(ParseError::syntax(i + 1));
        }
        match FieldType::parse(s, i + 2) {
            Ok((ty, end)) => {
                let f = Field { attributes: Attributes(attributes), is_pub, ident, ty };
                proof {
                    let head: Seq<TokV> = if is_pub { seq![ident_v("pub"@)] } else { Seq::empty() };
                    let mid = views(s@).subrange(attr_end as int, i + 2);
                    assert(same_toks(mid, head + seq![ident_v(f.ident@), punct_v(':', false)])) by {
                        if is_pub {
                            assert(mid =~= seq![s@[attr_end as int]@, s@[i as int]@, s@[i + 1]@]);
                        } else {
                            assert(mid =~= seq![s@[i as int]@, s@[i + 1]@]);
                        }
                    }
                    assert(views(s@).subrange(attr_end as int, end as int) =~= mid + views(s@).subrange(i + 2, end as int));
                    lemma_same_toks_concat(mid, head + seq![ident_v(f.ident@), punct_v(':', false)], views(s@).subrange(i + 2, end as int), type_toks(f.ty));
                    assert(views(s@).subrange(pos as int, end as int) =~= views(s@).subrange(pos as int, attr_end as int) + views(s@).subrange(attr_end as int, end as int));
                    lemma_same_toks_concat(views(s@).subrange(pos as int, attr_end as int), written_attrs(attributes@), views(s@).subrange(attr_end as int, end as int), bare_field_toks(f));
                    assert(written_attrs(f.attributes.0@) + bare_field_toks(f) =~= written_attrs(attributes@) + bare_field_toks(f));
                }
                Ok((f, end))
            },
            Err(e) => Err(e),
        }
    }

    /// The field rendered: passed-through attribute lines, then the field.
    pub fn to_tokens(&self) -> (r: Vec<Tok>)
        ensures
            views(r@) == field_toks(*self),
    {
        let mut r: Vec<Tok> = Vec::new();
        let attrs = &self.attributes.0;
        let mut i: usize = 0;
        assert(views(r@) =~= kept_attrs(attrs@.subrange(0, 0)));
        while i < attrs.len()
            invariant
                i <= attrs@.len(),
                attrs@ == self.attributes.0@,
                views(r@) == kept_attrs(attrs@.subrange(0, i as int)),
            decreases attrs@.len() - i,
        {
            let t = attrs[i].to_tokens();
            extend_toks(&mut r, &t);
            assert(attrs@.subrange(0, i + 1).drop_last() =~= attrs@.subrange(0, i as int));
            i = i + 1;
        }
        assert(attrs@.subrange(0, attrs@.len() as int) =~= attrs@);
        let ghost head = views(r@);
        if self.is_pub {
            r.push(Tok::ident("pub"));
        }
        r.push(Tok::ident_of(&self.ident));
        r.push(Tok::punct(':'));
        let ghost mid = views(r@);
        let t = self.ty.to_tokens();
        extend_toks(&mut r, &t);
        assert(views(r@) =~= field_toks(*self));
        r
    }

    /// The field's worst-case encoded size: `"name":` and its value.
    pub fn weight(&self) -> (r: Option<(u64, Option<(PathNamed, u64)>)>)
        ensures
            r is Some <==> weight_fits(self.ty, len_or_zero(self.attributes.0@) as nat) && field_weight(*self) <= u64::MAX,
            r matches Some((w, rem)) ==> w == field_weight(*self) && match remote_of(self.ty) {
                Some((p, m)) => rem matches Some((q, k)) && path_eq(q, p) && k == m,
                None => rem is None,
            },
    {
        let key = self.ident.as_str().len() as u64;
        let len = self.attributes.seek_len();
        match self.ty.weight(len) {
            Some((w, rem)) => match key.checked_add(3) {
                Some(k) => match k.checked_add(w) {
                    Some(t) => Some((t, rem)),
                    None => None,
                },
                None => None,
            },
            None => None,
        }
    }
}

pub proof fn lemma_same_toks_concat(a: Seq<TokV>, b: Seq<TokV>, c: Seq<TokV>, d: Seq<TokV>)
    requires
        same_toks(a, b),
        same_toks(c, d),
    ensures
        same_toks(a + c, b + d),
{
    assert forall|i: int| 0 <= i < (a + c).len() implies same_tok(#[trigger] (a + c)[i], (b + d)[i]) by {
        if i < a.len() {
            assert(same_tok(a[i], b[i]));
        } else {
            assert(same_tok(c[i - a.len()], d[i - a.len()]));
        }
    }
}

/// A record declaration: `[outer attributes] [pub] struct Name[<generics>] { fields }`.
pub struct Context {
    /// Attributes written above the declaration, kept verbatim.
    pub outer: Vec<Tok>,
    pub is_pub: bool,
    pub path: PathNamed,
    pub fields: Vec<Field>,
}

/// Fields each followed by a comma.
pub open spec fn fields_toks(fs: Seq<Field>) -> Seq<TokV>
    decreases fs.len(),
{
    if fs.len() == 0 {
        Seq::empty()
    } else {
        fields_toks(fs.drop_last()) + field_toks(fs.last()) + seq![punct_v(',', false)]
    }
}

/// The tokens a record is rendered with.
pub open spec fn record_toks(c: Context) -> Seq<TokV> {
    views(c.outer@) + (if c.is_pub { seq![ident_v("pub"@)] } else { Seq::empty() }) + seq![
        ident_v("struct"@),
    ] + path_toks(c.path) + seq![open_v('{')] + fields_toks(c.fields@) + seq![close_v('}')]
}

/// `g` is the owned form of `f`: same name and visibility, the stackified
/// type, no attribute lines.
pub open spec fn owned_field(f: Field, g: Field) -> bool {
    &&& g.ident == f.ident
    &&& g.is_pub == f.is_pub
    &&& stackified(f.ty, len_or_zero(f.attributes.0@), g.ty)
    &&& g.attributes.0@.len() == 0
}

/// The worst-case encoded size of a record apart from other records' sizes:
/// its fields, `{` and `}`, and a comma between fields.
pub open spec fn record_weight(fs: Seq<Field>) -> nat {
    fields_weight(fs) + 2 + (if fs.len() > 0 { (fs.len() - 1) as nat } else { 0 })
}

pub open spec fn fields_weight(fs: Seq<Field>) -> nat
    decreases fs.len(),
{
    if fs.len() == 0 {
        0
    } else {
        fields_weight(fs.drop_last()) + field_weight(fs.last())
    }
}

/// The other records whose sizes a record's size depends on, in field order,
/// each with its multiplicity.
pub open spec fn remotes_of(fs: Seq<Field>) -> Seq<(PathNamed, nat)>
    decreases fs.len(),
{
    if fs.len() == 0 {
        Seq::empty()
    } else {
        remotes_of(fs.drop_last()) + match remote_of(fs.last().ty) {
            Some(x) => seq![x],
            None => Seq::empty(),
        }
    }
}

/// Every field's size fits in a `u64` on the way.
pub open spec fn fields_fit(fs: Seq<Field>) -> bool {
    forall|i: int| 0 <= i < fs.len() ==> weight_fits(#[trigger] fs[i].ty, len_or_zero(fs[i].attributes.0@) as nat)
        && field_weight(fs[i]) <= u64::MAX
}

/// Whether two lists of remote sizes agree, paths compared by `path_eq`.
pub open spec fn remotes_eq(a: Seq<(PathNamed, u64)>, b: Seq<(PathNamed, nat)>) -> bool {
    a.len() == b.len() && forall|i: int| 0 <= i < a.len() ==> path_eq((#[trigger] a[i]).0, b[i].0) && a[i].1 == b[i].1
}

proof fn lemma_fields_weight_prefix(fs: Seq<Field>, i: int)
    requires
        0 <= i <= fs.len(),
    ensures
        fields_weight(fs.subrange(0, i)) <= fields_weight(fs),
    decreases fs.len(),
{
    if i == fs.len() {
        assert(fs.subrange(0, i) =~= fs);
    } else {
        assert(fs.drop_last().subrange(0, i) =~= fs.subrange(0, i));
        lemma_fields_weight_prefix(fs.drop_last(), i);
    }
}

/// A field as written: its attribute lines and the field.
pub open spec fn written_field(f: Field) -> Seq<TokV> {
    written_attrs(f.attributes.0@) + bare_field_toks(f)
}

/// Fields as written, each followed by a comma.
pub open spec fn comma_fields(fs: Seq<Field>) -> Seq<TokV>
    decreases fs.len(),
{
    if fs.len() == 0 {
        Seq::empty()
    } else {
        comma_fields(fs.drop_last()) + written_field(fs.last()) + seq![punct_v(',', false)]
    }
}

/// Fields as written, separated by commas, with a comma after the last one
/// where `trailing` holds.
pub open spec fn written_fields(fs: Seq<Field>, trailing: bool) -> Seq<TokV> {
    if fs.len() == 0 || trailing {
        comma_fields(fs)
    } else {
        comma_fields(fs.drop_last()) + written_field(fs.last())
    }
}

/// A declaration as written.
pub open spec fn record_written(c: Context, trailing: bool) -> Seq<TokV> {
    views(c.outer@) + (if c.is_pub { seq![ident_v("pub"@)] } else { Seq::empty() }) + seq![
        ident_v("struct"@),
    ] + path_toks(c.path) + seq![open_v('{')] + written_fields(c.fields@, trailing) + seq![close_v('}')]
}

/// No two fields share a name.
pub open spec fn names_unique(fs: Seq<Field>) -> bool {
    forall|a: int, b: int| 0 <= a < b < fs.len() ==> (#[trigger] fs[a]).ident@ != (#[trigger] fs[b]).ident@
}

proof fn lemma_comma_fields_trailing(fs: Seq<Field>)
    ensures
        written_fields(fs, true) == comma_fields(fs),
{
}

/// Reads the fields from `start` to the closing `}`, which must end the
/// tokens.
fn parse_body(s: &Vec<Tok>, start: usize) -> (r: Result<(Vec<Field>, bool), ParseError>)
    requires
        start <= s@.len(),
    ensures
        r is Ok <==> fields_close(views(s@), start as int, Set::empty()) == Some(s@.len() as int),
        r matches Err(e) ==> e == match fields_close(views(s@), start as int, Set::empty()) {
            Some(f) => crate::path::syntax_at(f),
            None => fields_error(views(s@), start as int, Set::empty()),
        },
        r matches Ok((fields, trailing)) ==> same_toks(
            views(s@).subrange(start as int, s@.len() as int),
            written_fields(fields@, trailing) + seq![close_v('}')],
        ) && names_unique(fields@) && forall|k: int| 0 <= k < fields@.len() ==> crate::field::classified(#[trigger] fields@[k].ty),
{
    let (fields, end, trailing) = match parse_fields(s, start) {
        Ok(x) => x,
        Err(e) => return Err(e),
    };
    if end != s.len() {
        return Err(ParseError::syntax(end));
    }
    Ok((fields, trailing))
}

/// Reads the header `[pub] struct Path {` from `a` on: whether it is
/// public, the path, and the index of the `{`.
fn parse_header(s: &Vec<Tok>, a: usize) -> (r: Result<(bool, PathNamed, usize), ParseError>)
    requires
        a <= s@.len(),
    ensures
        r is Ok <==> header_end(views(s@), a as int) is Some,
        r matches Err(e) ==> e == header_error(views(s@), a as int),
        r matches Ok((is_pub, path, after)) ==> {
            let struct_at = if is_pub { a + 1 } else { a as int };
            &&& header_end(views(s@), a as int) == Some(after + 1)
            &&& struct_at < after < s@.len()
            &&& is_pub ==> is_ident_v(views(s@)[a as int], "pub"@)
            &&& !is_pub ==> !(a < s@.len() && is_ident_v(views(s@)[a as int], "pub"@))
            &&& is_ident_v(views(s@)[struct_at], "struct"@)
            &&& same_toks(views(s@).subrange(struct_at + 1, after as int), path_toks(path))
            &&& is_open_v(views(s@)[after as int], '{')
        },
{
    let n = s.len();
    let ghost v = views(s@);
    let mut i = a;
    proof {
        if i < n {
            assert(v[i as int] == s@[i as int]@);
        }
    }
    let is_pub = i < n && s[i].is_ident("pub");
    if is_pub {
        i = i + 1;
    }
    proof {
        if i < n {
            assert(v[i as int] == s@[i as int]@);
        }
    }
    if i >= n || !s[i].is_ident("struct") {
        return Err(ParseError::syntax(i));
    }
    let (path, after) = match PathNamed::parse(s, i + 1) {
        Ok(x) => x,
        Err(e) => return Err(e),
    };
    proof {
        if after < n {
            assert(v[after as int] == s@[after as int]@);
        }
    }
    if after >= n || !s[after].is_char(TokKind::Open, '{') {
        return Err(ParseError::syntax(after));
    }
    Ok((is_pub, path, after))
}

/// Reads the attributes written above a declaration: their tokens and the
/// index after them.
fn parse_outer(s: &Vec<Tok>) -> (r: Result<(Vec<Tok>, usize), ParseError>)
    ensures
        r is Ok <==> outer_end(views(s@), 0) is Some,
        r matches Err(e) ==> e == outer_error(views(s@), 0),
        r matches Ok((o, e)) ==> e <= s@.len() && views(o@) == views(s@).subrange(0, e as int) && outer_end(
            views(s@),
            0,
        ) == Some(e as int),
{
    let n = s.len();
    let mut i: usize = 0;
    let mut outer: Vec<Tok> = Vec::new();
    while i < n && s[i].is_punct_char('#')
        invariant
            n == s@.len(),
            i <= n,
            views(outer@) == views(s@).subrange(0, i as int),
            outer_end(views(s@), 0) == outer_end(views(s@), i as int),
            outer_end(views(s@), 0) is None ==> outer_error(views(s@), 0) == outer_error(views(s@), i as int),
        decreases n - i,
    {
        assert(views(s@)[i as int] == s@[i as int]@);
        if n - i < 2 || !s[i + 1].is_char(TokKind::Open, '[') {
            proof {
                if i + 1 < n {
                    assert(views(s@)[i + 1] == s@[i + 1]@);
                }
            }
            return Err(ParseError::syntax(i + 1));
        }
        assert(views(s@)[i + 1] == s@[i + 1]@);
        match group_end(s, i + 1) {
            Some(e) => {
                copy_toks(s, i, e, &mut outer);
                assert(views(s@).subrange(0, e as int) =~= views(s@).subrange(0, i as int) + views(s@).subrange(i as int, e as int));
                i = e;
            },
            None => return Err(ParseError::syntax(i + 1)),
        }
    }
    proof {
        if i < n {
            assert(views(s@)[i as int] == s@[i as int]@);
        }
    }
    Ok((outer, i))
}

proof fn lemma_header(v: Seq<TokV>, outer: Seq<TokV>, is_pub: bool, path: PathNamed, outer_len: int, struct_at: int, after: int)
    requires
        0 <= outer_len <= struct_at < after < v.len(),
        outer == v.subrange(0, outer_len),
        is_pub ==> struct_at == outer_len + 1 && is_ident_v(v[outer_len], "pub"@),
        !is_pub ==> struct_at == outer_len,
        is_ident_v(v[struct_at], "struct"@),
        same_toks(v.subrange(struct_at + 1, after), path_toks(path)),
        is_open_v(v[after], '{'),
    ensures
        same_toks(v.subrange(0, after + 1), outer + (if is_pub { seq![ident_v("pub"@)] } else { Seq::empty() })
            + seq![ident_v("struct"@)] + path_toks(path) + seq![open_v('{')]),
{
    let pre = v.subrange(0, after + 1);
    let ph: Seq<TokV> = if is_pub { seq![ident_v("pub"@)] } else { Seq::empty() };
    assert(pre =~= v.subrange(0, outer_len) + v.subrange(outer_len, struct_at + 1)
        + v.subrange(struct_at + 1, after) + seq![v[after]]);
    assert(same_toks(v.subrange(0, outer_len), outer));
    assert(same_toks(v.subrange(outer_len, struct_at + 1), ph + seq![ident_v("struct"@)])) by {
        if is_pub {
            assert(v.subrange(outer_len, struct_at + 1) =~= seq![v[outer_len], v[struct_at]]);
        } else {
            assert(v.subrange(outer_len, struct_at + 1) =~= seq![v[struct_at]]);
        }
    }
    lemma_same_toks_concat(v.subrange(0, outer_len), outer, v.subrange(outer_len, struct_at + 1), ph + seq![ident_v("struct"@)]);
    lemma_same_toks_concat(v.subrange(0, struct_at + 1), outer + (ph + seq![ident_v("struct"@)]), v.subrange(struct_at + 1, after), path_toks(path));
    assert(same_toks(seq![v[after]], seq![open_v('{')]));
    assert(v.subrange(0, struct_at + 1) =~= v.subrange(0, outer_len) + v.subrange(outer_len, struct_at + 1));
    assert(v.subrange(0, after) =~= v.subrange(0, struct_at + 1) + v.subrange(struct_at + 1, after));
    lemma_same_toks_concat(v.subrange(0, after), outer + (ph + seq![ident_v("struct"@)]) + path_toks(path), seq![v[after]], seq![open_v('{')]);
    assert(pre =~= v.subrange(0, after) + seq![v[after]]);
    assert(outer + ph + seq![ident_v("struct"@)] + path_toks(path) + seq![open_v('{')] =~= outer + (ph + seq![ident_v("struct"@)]) + path_toks(path) + seq![open_v('{')]);
}

/// Whether one of `fields` has the name `name`.
fn has_name(fields: &Vec<Field>, name: &String) -> (r: bool)
    ensures
        r == name_set(fields@).contains(name@),
{
    let mut j: usize = 0;
    while j < fields.len()
        invariant
            j <= fields@.len(),
            forall|k: int| 0 <= k < j ==> fields@[k].ident@ != name@,
        decreases fields@.len() - j,
    {
        if fields[j].ident == *name {
            assert(fields@[j as int].ident@ == name@);
            return true;
        }
        j = j + 1;
    }
    assert(!name_set(fields@).contains(name@)) by {
        if name_set(fields@).contains(name@) {
            let k = choose|k: int| 0 <= k < fields@.len() && (#[trigger] fields@[k]).ident@ == name@;
            assert(fields@[k].ident@ != name@);
        }
    }
    false
}

/// Reads fields separated by commas from `start` through the closing `}`:
/// the fields, the index after `}`, and whether a comma followed the last
/// field.
#[verifier::rlimit(100)]
fn parse_fields(s: &Vec<Tok>, start: usize) -> (r: Result<(Vec<Field>, usize, bool), ParseError>)
    requires
        start <= s@.len(),
    ensures
        r matches Ok((fields, end, trailing)) ==> start < end <= s@.len() && same_toks(
            views(s@).subrange(start as int, end as int),
            written_fields(fields@, trailing) + seq![close_v('}')],
        ) && names_unique(fields@),
        r matches Ok((fields, _, _)) ==> forall|k: int| 0 <= k < fields@.len() ==> crate::field::classified(#[trigger] fields@[k].ty),
        r is Ok <==> fields_close(views(s@), start as int, Set::empty()) is Some,
        r matches Ok((_, end, _)) ==> fields_close(views(s@), start as int, Set::empty()) == Some(end as int),
        r matches Err(e) ==> e == fields_error(views(s@), start as int, Set::empty()),
{
    let n = s.len();
    let mut i = start;
    let ghost v = views(s@);
    assert(name_set(Seq::<Field>::empty()) =~= Set::<Seq<char>>::empty());
    let ghost head = Seq::<TokV>::empty();
    let mut fields: Vec<Field> = Vec::new();
    let mut trailing = true;
    assert(head + comma_fields(fields@) =~= head);
    loop
        invariant_except_break
            same_toks(views(s@).subrange(start as int, i as int), head + comma_fields(fields@)),
            trailing,
            fields_close(v, start as int, Set::empty()) == fields_close(v, i as int, name_set(fields@)),
            fields_close(v, start as int, Set::empty()) is None ==> fields_error(v, start as int, Set::empty())
                == fields_error(v, i as int, name_set(fields@)),
        invariant
            n == s@.len(),
            v == views(s@),
            start <= i <= n,
            names_unique(fields@),
            forall|k: int| 0 <= k < fields@.len() ==> crate::field::classified(#[trigger] fields@[k].ty),
        ensures
            same_toks(views(s@).subrange(start as int, i as int), head + written_fields(fields@, trailing) + seq![close_v('}')]),
            start < i,
            fields_close(v, start as int, Set::empty()) == Some(i as int),
        decreases n - i,
    {
        if i >= n {
            return Err(ParseError::syntax(i));
        }
        assert(v[i as int] == s@[i as int]@);
        if s[i].is_char(TokKind::Close, '}') {
            proof {
                assert(views(s@).subrange(start as int, i + 1) =~= views(s@).subrange(start as int, i as int) + seq![views(s@)[i as int]]);
                lemma_same_toks_concat(views(s@).subrange(start as int, i as int), head + comma_fields(fields@), seq![views(s@)[i as int]], seq![close_v('}')]);
                lemma_comma_fields_trailing(fields@);
                assert(head + comma_fields(fields@) + seq![close_v('}')] =~= head + written_fields(fields@, trailing) + seq![close_v('}')]);
            }
            i = i + 1;
            break;
        }
        let start_f = i;
        let (f, end) = match Field::parse(s, i) {
            Ok(x) => x,
            Err(e) => return Err(e),
        };
        let ghost name = v[field_name_at(v, start_f as int)].text;
        if has_name(&fields, &f.ident) {
            return Err(ParseError::syntax(start_f));
        }
        assert(!name_set(fields@).contains(name));
        let ghost prev = fields@;
        fields.push(f);
        i = end;
        proof {
            assert(name_set(fields@) =~= name_set(prev).insert(name)) by {
                assert forall|x: Seq<char>| name_set(fields@).contains(x) implies name_set(prev).insert(name).contains(x) by {
                    let k = choose|k: int| 0 <= k < fields@.len() && (#[trigger] fields@[k]).ident@ == x;
                    if k < prev.len() {
                        assert(fields@[k] == prev[k]);
                    }
                }
                assert forall|x: Seq<char>| name_set(prev).insert(name).contains(x) implies name_set(fields@).contains(x) by {
                    if x == name {
                        assert(fields@[prev.len() as int].ident@ == x);
                    } else {
                        let k = choose|k: int| 0 <= k < prev.len() && (#[trigger] prev[k]).ident@ == x;
                        assert(fields@[k] == prev[k]);
                    }
                }
            }
            assert(fields@.drop_last() =~= prev);
            assert(views(s@).subrange(start as int, end as int) =~= views(s@).subrange(start as int, start_f as int) + views(s@).subrange(start_f as int, end as int));
            lemma_same_toks_concat(views(s@).subrange(start as int, start_f as int), head + comma_fields(prev), views(s@).subrange(start_f as int, end as int), written_field(fields@.last()));
            assert forall|a: int, b: int| 0 <= a < b < fields@.len() implies (#[trigger] fields@[a]).ident@ != (#[trigger] fields@[b]).ident@ by {
                if b < prev.len() {
                    assert(fields@[a] == prev[a] && fields@[b] == prev[b]);
                }
            }
        }
        proof {
            if i < n {
                assert(v[i as int] == s@[i as int]@);
            }
        }
        if i < n && s[i].is_punct_char(',') {
            proof {
                assert(views(s@).subrange(start as int, i + 1) =~= views(s@).subrange(start as int, i as int) + seq![views(s@)[i as int]]);
                lemma_same_toks_concat(views(s@).subrange(start as int, i as int), head + comma_fields(prev) + written_field(fields@.last()), seq![views(s@)[i as int]], seq![punct_v(',', false)]);
                assert(comma_fields(fields@) =~= comma_fields(prev) + written_field(fields@.last()) + seq![punct_v(',', false)]);
                assert(head + comma_fields(fields@) =~= head + comma_fields(prev) + written_field(fields@.last()) + seq![punct_v(',', false)]);
            }
            i = i + 1;
        } else if i < n && s[i].is_char(TokKind::Close, '}') {
            proof {
                assert(views(s@).subrange(start as int, i + 1) =~= views(s@).subrange(start as int, i as int) + seq![views(s@)[i as int]]);
                lemma_same_toks_concat(views(s@).subrange(start as int, i as int), head + comma_fields(prev) + written_field(fields@.last()), seq![views(s@)[i as int]], seq![close_v('}')]);
                assert(written_fields(fields@, false) =~= comma_fields(prev) + written_field(fields@.last()));
                assert(head + written_fields(fields@, false) + seq![close_v('}')] =~= head + comma_fields(prev) + written_field(fields@.last()) + seq![close_v('}')]);
            }
            i = i + 1;
            trailing = false;
            break;
        } else {
            return Err(ParseError::syntax(i));
        }
    }
    Ok((fields, i, trailing))
}

/// With `depth` groups open before `i`, the index just after the token that
/// closes them all; `None` where they do not close, or a token closes none.
pub open spec fn group_close(v: Seq<TokV>, i: int, depth: nat) -> Option<int>
    decreases v.len() - i,
{
    if i < 0 || i >= v.len() {
        None
    } else if v[i].kind == TokKind::Open {
        group_close(v, i + 1, depth + 1)
    } else if v[i].kind == TokKind::Close {
        if depth == 1 {
            Some(i + 1)
        } else if depth == 0 {
            None
        } else {
            group_close(v, i + 1, (depth - 1) as nat)
        }
    } else {
        group_close(v, i + 1, depth)
    }
}

proof fn lemma_group_close_bounds(v: Seq<TokV>, i: int, depth: nat)
    ensures
        group_close(v, i, depth) matches Some(e) ==> i < e <= v.len(),
    decreases v.len() - i,
{
    if 0 <= i < v.len() {
        if v[i].kind == TokKind::Open {
            lemma_group_close_bounds(v, i + 1, depth + 1);
        } else if v[i].kind == TokKind::Close {
            if depth > 1 {
                lemma_group_close_bounds(v, i + 1, (depth - 1) as nat);
            }
        } else {
            lemma_group_close_bounds(v, i + 1, depth);
        }
    }
}

/// Where the attributes `# [ ... ]` written above a declaration from `i` on
/// end.
pub open spec fn outer_end(v: Seq<TokV>, i: int) -> Option<int>
    decreases v.len() - i,
{
    if 0 <= i < v.len() && is_punct_v(v[i], '#') {
        if i + 1 < v.len() && is_open_v(v[i + 1], '[') {
            match group_close(v, i + 1, 0) {
                Some(e) => if i < e <= v.len() { outer_end(v, e) } else { None },
                None => None,
            }
        } else {
            None
        }
    } else if 0 <= i <= v.len() {
        Some(i)
    } else {
        None
    }
}

/// Where the fields written from `i` on end, just after the closing `}`:
/// fields separated by commas, a trailing comma allowed, no name in `seen`
/// and no name twice.
pub open spec fn fields_close(v: Seq<TokV>, i: int, seen: Set<Seq<char>>) -> Option<int>
    decreases v.len() - i,
{
    if i < 0 || i >= v.len() {
        None
    } else if is_close_v(v[i], '}') {
        Some(i + 1)
    } else {
        match field_end(v, i) {
            Some(e) => {
                let name = v[field_name_at(v, i)].text;
                if seen.contains(name) || e <= i || e >= v.len() {
                    None
                } else if is_punct_v(v[e], ',') {
                    fields_close(v, e + 1, seen.insert(name))
                } else if is_close_v(v[e], '}') {
                    Some(e + 1)
                } else {
                    None
                }
            },
            None => None,
        }
    }
}

/// The error reported where the fields from `i` on break off.
pub open spec fn fields_error(v: Seq<TokV>, i: int, seen: Set<Seq<char>>) -> ParseError
    decreases v.len() - i,
{
    if i < 0 || i >= v.len() || is_close_v(v[i], '}') {
        crate::path::syntax_at(i)
    } else {
        match field_end(v, i) {
            Some(e) => {
                let name = v[field_name_at(v, i)].text;
                if seen.contains(name) {
                    crate::path::syntax_at(i)
                } else if e <= i || e >= v.len() || !is_punct_v(v[e], ',') {
                    crate::path::syntax_at(e)
                } else {
                    fields_error(v, e + 1, seen.insert(name))
                }
            },
            None => field_error(v, i),
        }
    }
}

/// The error reported where the attributes above a declaration break off.
pub open spec fn outer_error(v: Seq<TokV>, i: int) -> ParseError
    decreases v.len() - i,
{
    if 0 <= i < v.len() && is_punct_v(v[i], '#') {
        if i + 1 < v.len() && is_open_v(v[i + 1], '[') {
            match group_close(v, i + 1, 0) {
                Some(e) => if i < e <= v.len() { outer_error(v, e) } else { crate::path::syntax_at(i + 1) },
                None => crate::path::syntax_at(i + 1),
            }
        } else {
            crate::path::syntax_at(i + 1)
        }
    } else {
        crate::path::syntax_at(i)
    }
}

/// The index just after the `{` of the header `[pub] struct Path {` that
/// starts at `a`.
pub open spec fn header_end(v: Seq<TokV>, a: int) -> Option<int> {
    let b = if 0 <= a < v.len() && is_ident_v(v[a], "pub"@) { a + 1 } else { a };
    if !(0 <= b < v.len() && is_ident_v(v[b], "struct"@)) {
        None
    } else {
        match crate::path::path_end(v, b + 1) {
            Some(c) => if 0 <= c < v.len() && is_open_v(v[c], '{') { Some(c + 1) } else { None },
            None => None,
        }
    }
}

/// The error reported where no header starts at `a`.
pub open spec fn header_error(v: Seq<TokV>, a: int) -> ParseError {
    let b = if 0 <= a < v.len() && is_ident_v(v[a], "pub"@) { a + 1 } else { a };
    if !(0 <= b < v.len() && is_ident_v(v[b], "struct"@)) {
        crate::path::syntax_at(b)
    } else {
        match crate::path::path_end(v, b + 1) {
            Some(c) => crate::path::syntax_at(c),
            None => crate::path::path_error(v, b + 1),
        }
    }
}

/// The error reported for tokens that are no declaration: at the first
/// token that breaks the grammar, or at a field whose type is outside the
/// supported shapes (`ErrorKind::UnsupportedType`), or at a field whose
/// name an earlier field has.
pub open spec fn record_error(v: Seq<TokV>) -> ParseError {
    match outer_end(v, 0) {
        Some(a) => match header_end(v, a) {
            Some(c) => match fields_close(v, c, Set::empty()) {
                Some(f) => crate::path::syntax_at(f),
                None => fields_error(v, c, Set::empty()),
            },
            None => header_error(v, a),
        },
        None => outer_error(v, 0),
    }
}

/// Whether `v` is one whole declaration: outer attributes, an optional
/// `pub`, `struct`, a path, and fields in braces with distinct names.
pub open spec fn record_shape(v: Seq<TokV>) -> bool {
    match outer_end(v, 0) {
        Some(a) => match header_end(v, a) {
            Some(c) => fields_close(v, c, Set::empty()) == Some(v.len() as int),
            None => false,
        },
        None => false,
    }
}

/// The names of the fields.
pub open spec fn name_set(fs: Seq<Field>) -> Set<Seq<char>> {
    Set::new(|x: Seq<char>| exists|k: int| 0 <= k < fs.len() && (#[trigger] fs[k]).ident@ == x)
}

/// Scans the group opened at `pos` to its matching close: the index after it.
fn group_end(s: &Vec<Tok>, pos: usize) -> (r: Option<usize>)
    requires
        pos < s@.len(),
    ensures
        r matches Some(e) ==> pos < e <= s@.len(),
        r is Some <==> group_close(views(s@), pos as int, 0) is Some,
        r matches Some(e) ==> group_close(views(s@), pos as int, 0) == Some(e as int),
{
    let n = s.len();
    let mut depth: usize = 0;
    let mut i = pos;
    while i < n
        invariant
            n == s@.len(),
            pos <= i <= n,
            depth <= i - pos,
            group_close(views(s@), pos as int, 0) == group_close(views(s@), i as int, depth as nat),
        decreases n - i,
    {
        assert(views(s@)[i as int] == s@[i as int]@);
        if s[i].kind == TokKind::Open {
            depth = depth + 1;
        } else if s[i].kind == TokKind::Close {
            if depth <= 1 {
                proof {
                    lemma_group_close_bounds(views(s@), pos as int, 0);
                }
                return if depth == 1 { Some(i + 1) } else { None };
            }
            depth = depth - 1;
        }
        i = i + 1;
    }
    None
}

fn copy_toks(s: &Vec<Tok>, from: usize, to: usize, out: &mut Vec<Tok>)
    requires
        from <= to <= s@.len(),
    ensures
        views(final(out)@) == views(old(out)@) + views(s@).subrange(from as int, to as int),
{
    let ghost start = views(out@);
    let mut i = from;
    while i < to
        invariant
            from <= i <= to <= s@.len(),
            views(out@) == start + views(s@).subrange(from as int, i as int),
        decreases to - i,
    {
        let ghost prev = views(out@);
        out.push(s[i].clone());
        assert(views(out@) =~= prev.push(s@[i as int]@));
        assert(views(out@) =~= start + views(s@).subrange(from as int, i + 1));
        i = i + 1;
    }
}

impl Context {
    /// Reads a whole declaration. Succeeds exactly on a declaration of the
    /// grammar whose field names are distinct; fails at the first token that
    /// breaks it.
    #[verifier::rlimit(100)]
    pub fn parse(s: &Vec<Tok>) -> (r: Result<Context, ParseError>)
        ensures
            r is Ok <==> record_shape(views(s@)),
            r matches Err(e) ==> e == record_error(views(s@)),
            r matches Ok(c) ==> exists|trailing: bool| same_toks(views(s@), record_written(c, trailing)),
            r matches Ok(c) ==> names_unique(c.fields@),
            r matches Ok(c) ==> forall|k: int| 0 <= k < c.fields@.len() ==> crate::field::classified(#[trigger] c.fields@[k].ty),
    {
        let n = s.len();
        let ghost v = views(s@);
        let (outer, outer_len) = match parse_outer(s) {
            Ok(x) => x,
            Err(e) => return Err(e),
        };
        let (is_pub, path, after) = match parse_header(s, outer_len) {
            Ok(x) => x,
            Err(e) => return Err(e),
        };
        let struct_at: usize = if is_pub { outer_len + 1 } else { outer_len };
        let mut i = after + 1;
        let ghost head: Seq<TokV> = views(outer@) + (if is_pub { seq![ident_v("pub"@)] } else { Seq::empty() })
            + seq![ident_v("struct"@)] + path_toks(path) + seq![open_v('{')];
        proof {
            lemma_header(v, views(outer@), is_pub, path, outer_len as int, struct_at as int, after as int);
        }
        let (fields, trailing) = match parse_body(s, i) {
            Ok(x) => x,
            Err(e) => return Err(e),
        };
        proof {
            assert(v =~= v.subrange(0, i as int) + v.subrange(i as int, n as int));
            lemma_same_toks_concat(v.subrange(0, i as int), head, v.subrange(i as int, n as int), written_fields(fields@, trailing) + seq![close_v('}')]);
            assert(head + (written_fields(fields@, trailing) + seq![close_v('}')]) =~= head + written_fields(fields@, trailing) + seq![close_v('}')]);
        }
        let c = Context { outer, is_pub, path, fields };
        proof {
            assert(record_written(c, trailing) =~= head + written_fields(c.fields@, trailing) + seq![close_v('}')]);
            assert(same_toks(v, record_written(c, trailing)));
        }
        Ok(c)
    }

    /// The record rendered: outer attributes, `[pub] struct`, the path and
    /// each field followed by a comma.
    pub fn to_tokens(&self) -> (r: Vec<Tok>)
        ensures
            views(r@) == record_toks(*self),
    {
        let mut r: Vec<Tok> = Vec::new();
        assert(views(r@) =~= Seq::<TokV>::empty());
        extend_toks(&mut r, &self.outer);
        let ghost a0 = views(r@);
        if self.is_pub {
            r.push(Tok::ident("pub"));
        }
        r.push(Tok::ident("struct"));
        let ghost a1 = views(r@);
        assert(a1 =~= views(self.outer@) + (if self.is_pub { seq![ident_v("pub"@)] } else { Seq::empty() }) + seq![ident_v("struct"@)]);
        let p = self.path.to_tokens();
        extend_toks(&mut r, &p);
        let ghost a2 = views(r@);
        r.push(Tok::open('{'));
        assert(views(r@) =~= a2.push(open_v('{')));
        let ghost head = views(r@);
        let mut i: usize = 0;
        assert(head + fields_toks(self.fields@.subrange(0, 0)) =~= head);
        while i < self.fields.len()
            invariant
                i <= self.fields@.len(),
                views(r@) == head + fields_toks(self.fields@.subrange(0, i as int)),
            decreases self.fields@.len() - i,
        {
            let ghost prev = views(r@);
            let t = self.fields[i].to_tokens();
            extend_toks(&mut r, &t);
            let ghost mid = views(r@);
            r.push(Tok::punct(','));
            proof {
                let sub = self.fields@.subrange(0, i + 1);
                assert(sub.drop_last() =~= self.fields@.subrange(0, i as int));
                assert(sub.last() == self.fields@[i as int]);
                assert(views(r@) =~= mid.push(punct_v(',', false)));
                assert(fields_toks(sub) == fields_toks(self.fields@.subrange(0, i as int)) + field_toks(self.fields@[i as int]) + seq![punct_v(',', false)]);
            }
            assert(views(r@) =~= head + fields_toks(self.fields@.subrange(0, i + 1)));
            i = i + 1;
        }
        assert(self.fields@.subrange(0, self.fields@.len() as int) =~= self.fields@);
        let ghost a3 = views(r@);
        r.push(Tok::close('}'));
        assert(views(r@) =~= a3.push(close_v('}')));
        assert(views(r@) =~= record_toks(*self));
        r
    }

    /// The owned counterpart: `NameOwned` without generics, each field
    /// stackified, no outer attributes.
    pub fn into_owned(&self) -> (r: Context)
        ensures
            renamed_bare(self.path, r.path, self.path.ident@ + "Owned"@),
            r.is_pub == self.is_pub,
            r.outer@.len() == 0,
            r.fields@.len() == self.fields@.len(),
            forall|i: int| 0 <= i < self.fields@.len() ==> owned_field(#[trigger] self.fields@[i], r.fields@[i]),
    {
        let mut fields: Vec<Field> = Vec::new();
        let mut i: usize = 0;
        while i < self.fields.len()
            invariant
                i <= self.fields@.len(),
                fields@.len() == i,
                forall|j: int| 0 <= j < i ==> owned_field(#[trigger] self.fields@[j], fields@[j]),
            decreases self.fields@.len() - i,
        {
            fields.push(self.fields[i].stackify());
            i = i + 1;
        }
        Context { outer: Vec::new(), is_pub: self.is_pub, path: self.path.stackify(), fields }
    }

    /// The record's worst-case encoded size apart from other records, and
    /// the other records' sizes it depends on; `None` where a size does not
    /// fit in a `u64`.
    pub fn weight(&self) -> (r: Option<(u64, Vec<(PathNamed, u64)>)>)
        ensures
            r is Some <==> fields_fit(self.fields@) && record_weight(self.fields@) <= u64::MAX
                && forall|i: int| 0 <= i < remotes_of(self.fields@).len() ==> #[trigger] remotes_of(self.fields@)[i].1 <= u64::MAX,
            r matches Some((w, rem)) ==> w == record_weight(self.fields@) && remotes_eq(rem@, remotes_of(self.fields@)),
    {
        let fs = &self.fields;
        let mut acc: u64 = 0;
        let mut rem: Vec<(PathNamed, u64)> = Vec::new();
        let mut i: usize = 0;
        while i < fs.len()
            invariant
                fs@ == self.fields@,
                i <= fs@.len(),
                fields_fit(fs@.subrange(0, i as int)),
                acc == fields_weight(fs@.subrange(0, i as int)),
                remotes_eq(rem@, remotes_of(fs@.subrange(0, i as int))),
            decreases fs@.len() - i,
        {
            let ghost pre = fs@.subrange(0, i as int);
            let ghost now = fs@.subrange(0, i + 1);
            assert(now.drop_last() =~= pre);
            assert(now.last() == fs@[i as int]);
            match fs[i].weight() {
                Some((w, r)) => {
                    match acc.checked_add(w) {
                        Some(a) => acc = a,
                        None => {
                            proof {
                                lemma_fields_weight_prefix(fs@, i + 1);
                                assert(fs@.subrange(0, i + 1) =~= now);
                            }
                            return None;
                        },
                    }
                    match r {
                        Some(x) => {
                            let ghost prev = rem@;
                            rem.push(x);
                            assert(rem@ =~= prev.push(x));
                        },
                        None => {},
                    }
                    assert(fields_fit(now)) by {
                        assert forall|j: int| 0 <= j < now.len() implies weight_fits(#[trigger] now[j].ty, len_or_zero(now[j].attributes.0@) as nat) && field_weight(now[j]) <= u64::MAX by {
                            if j < i {
                                assert(now[j] == pre[j]);
                            }
                        }
                    }
                },
                None => {
                    assert(!fields_fit(self.fields@)) by {
                        assert(self.fields@[i as int] == fs@[i as int]);
                    }
                    return None;
                },
            }
            i = i + 1;
        }
        assert(fs@.subrange(0, fs@.len() as int) =~= fs@);
        assert forall|i: int| 0 <= i < remotes_of(self.fields@).len() implies #[trigger] remotes_of(self.fields@)[i].1 <= u64::MAX by {
            assert(rem@[i].1 == remotes_of(self.fields@)[i].1);
        }
        let sep: u64 = if fs.len() > 0 { (fs.len() - 1) as u64 } else { 0 };
        match acc.checked_add(2) {
            Some(a) => match a.checked_add(sep) {
                Some(t) => Some((t, rem)),
                None => None,
            },
            None => None,
        }
    }
}

} // verus!
