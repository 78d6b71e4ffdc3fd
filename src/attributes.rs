//! Field attributes: the documentation lines above a field, split into lines
//! of this library (`sbc: key = value`), which are consumed, and all others,
//! which are passed through verbatim.
use vstd::prelude::*;
use crate::error::ParseError;
use crate::lex::lex;
use crate::lex::{balanced, depth_after};
use crate::literal::{int_lit_read, integer_literal_value, str_lit_read, string_literal_value};
use crate::token::{
    Tok, TokKind, TokV, close_v, ident_v, is_close_v, is_ident_v, is_open_v, is_punct_v, open_v,
    punct_v, same_toks, tv, views,
};

verus! {

/// The value of a recognized attribute, kept as tokens until a generator
/// asks for a particular reading.
pub struct DefaultLit(pub Vec<Tok>);

/// Whether `v` is one bracketed group, as an array literal is.
pub open spec fn is_array_toks(v: Seq<TokV>) -> bool {
    &&& v.len() >= 2
    &&& is_open_v(v[0], '[')
    &&& is_close_v(v.last(), ']')
    &&& !closes_early(v)
}

/// Whether the group opened by the first token of `v` closes before its last.
pub open spec fn closes_early(v: Seq<TokV>) -> bool {
    exists|i: int| 1 <= i < v.len() && depth_after(#[trigger] v.subrange(0, i)) <= 0
}

impl DefaultLit {
    /// Whether the value is one bracketed group (an array literal).
    pub fn is_array(&self) -> (r: bool)
        ensures
            r == is_array_toks(views(self.0@)),
    {
        let v = &self.0;
        assert(views(v@) == views(self.0@));
        let n = v.len();
        if n < 2 || !v[0].is_char(TokKind::Open, '[') || !v[n - 1].is_char(TokKind::Close, ']') {
            return false;
        }
        assert(views(v@)[0] == v@[0]@);
        assert(views(v@).last() == v@[n - 1]@);
        let mut depth: usize = 1;
        let mut i: usize = 1;
        assert(views(v@).subrange(0, 1).drop_last() =~= Seq::<TokV>::empty());
        assert(depth_after(Seq::<TokV>::empty()) == 0);
        while i < n - 1
            invariant
                n == v@.len(),
                views(v@) == views(self.0@),
                n >= 2,
                1 <= i <= n - 1,
                depth == depth_after(views(v@).subrange(0, i as int)),
                0 < depth <= i,
                forall|k: int| 1 <= k <= i ==> depth_after(#[trigger] views(v@).subrange(0, k)) > 0,
            decreases n - 1 - i,
        {
            assert(views(v@).subrange(0, i + 1).drop_last() =~= views(v@).subrange(0, i as int));
            assert(views(v@).subrange(0, i + 1).last() == v@[i as int]@);
            if v[i].kind == TokKind::Open {
                depth = depth + 1;
            } else if v[i].kind == TokKind::Close {
                depth = depth - 1;
            }
            assert(depth == depth_after(views(v@).subrange(0, i + 1)));
            if depth == 0 {
                let ghost k = i + 1;
                assert(1 <= k < views(v@).len());
                assert(depth_after(views(v@).subrange(0, k)) == 0);
                assert(closes_early(views(self.0@)));
                return false;
            }
            i = i + 1;
        }
        assert(!closes_early(views(self.0@)));
        true
    }
}

/// `# [ name = "text" ]`: one documentation line, or an attribute of the
/// same shape.
pub struct AttributeDoc {
    pub name: String,
    /// The string literal as written, quotes included.
    pub inner: String,
}

pub open spec fn doc_toks(d: AttributeDoc) -> Seq<TokV> {
    seq![
        punct_v('#', false),
        open_v('['),
        ident_v(d.name@),
        punct_v('=', false),
        tv(TokKind::Lit, d.inner@, false),
        close_v(']'),
    ]
}

impl AttributeDoc {
    /// The attribute written back as tokens.
    pub fn to_tokens(&self) -> (r: Vec<Tok>)
        ensures
            views(r@) == doc_toks(*self),
    {
        let mut r: Vec<Tok> = Vec::new();
        r.push(Tok::punct('#'));
        r.push(Tok::open('['));
        r.push(Tok::ident_of(&self.name));
        r.push(Tok::punct('='));
        r.push(Tok { kind: TokKind::Lit, text: self.inner.clone(), joint: false });
        r.push(Tok::close(']'));
        assert(views(r@) =~= doc_toks(*self));
        r
    }
}

/// Whether six tokens read `# [ name = literal ]`.
pub open spec fn doc_shape(t: Seq<TokV>) -> bool {
    &&& t.len() == 6
    &&& is_punct_v(t[0], '#')
    &&& is_open_v(t[1], '[')
    &&& t[2].kind == TokKind::Ident
    &&& is_punct_v(t[3], '=')
    &&& t[4].kind == TokKind::Lit
    &&& is_close_v(t[5], ']')
}

/// The error reported where no attribute line starts at `i`: the first of
/// its six tokens that breaks the shape `# [ name = literal ]`.
pub open spec fn attr_error(v: Seq<TokV>, i: int) -> ParseError {
    if !(0 <= i && i + 6 <= v.len()) || !is_punct_v(v[i], '#') {
        crate::path::syntax_at(i)
    } else if !is_open_v(v[i + 1], '[') {
        crate::path::syntax_at(i + 1)
    } else if v[i + 2].kind != TokKind::Ident {
        crate::path::syntax_at(i + 2)
    } else if !is_punct_v(v[i + 3], '=') {
        crate::path::syntax_at(i + 3)
    } else if v[i + 4].kind != TokKind::Lit {
        crate::path::syntax_at(i + 4)
    } else {
        crate::path::syntax_at(i + 5)
    }
}

/// `sbc: key = value`, the contents of a line of this library.
pub struct AttributeMeta {
    pub key: String,
    pub val: DefaultLit,
}

/// A recognized line, with the attribute it came from.
pub struct AttributeOurs {
    pub doc: AttributeDoc,
    pub meta: AttributeMeta,
}

/// The contents of a documentation line, classified.
pub enum MaybeOurs {
    Ours(AttributeMeta),
    Ignore(Vec<Tok>),
}

/// Whether the contents of a line begin with this library's marker `sbc:`.
pub open spec fn marked(inner: Seq<TokV>) -> bool {
    inner.len() >= 2 && is_ident_v(inner[0], "sbc"@) && is_punct_v(inner[1], ':')
}

/// Whether a marked line goes on as `key = value`.
pub open spec fn well_formed_meta(inner: Seq<TokV>) -> bool {
    inner.len() >= 4 && inner[2].kind == TokKind::Ident && is_punct_v(inner[3], '=')
}

impl MaybeOurs {
    /// Classifies the contents of a line: one that reads exactly
    /// `sbc: key = value` is this library's; any other line, a malformed
    /// attempt included, is passed through.
    pub fn classify(inner: Vec<Tok>) -> (r: MaybeOurs)
        ensures
            marked(views(inner@)) && well_formed_meta(views(inner@)) ==> (r matches MaybeOurs::Ours(m)
                && m.key@ == inner@[2].text@ && views(m.val.0@) == views(inner@).subrange(
                4,
                inner@.len() as int,
            )),
            !(marked(views(inner@)) && well_formed_meta(views(inner@))) ==> (r matches MaybeOurs::Ignore(v)
                && v@ == inner@),
    {
        let n = inner.len();
        if !(n >= 4 && inner[0].is_ident("sbc") && inner[1].is_punct_char(':') && inner[2].kind
            == TokKind::Ident && inner[3].is_punct_char('=')) {
            return MaybeOurs::Ignore(inner);
        }
        let key = inner[2].text.clone();
        let mut val: Vec<Tok> = Vec::new();
        let mut i: usize = 4;
        while i < n
            invariant
                n == inner@.len(),
                4 <= i <= n,
                views(val@) == views(inner@).subrange(4, i as int),
            decreases n - i,
        {
            let ghost prev = val@;
            val.push(inner[i].clone());
            assert(views(val@) =~= views(prev).push(inner@[i as int]@));
            assert(views(val@) =~= views(inner@).subrange(4, i + 1));
            i = i + 1;
        }
        MaybeOurs::Ours(AttributeMeta { key, val: DefaultLit(val) })
    }
}

/// An attribute above a field: a line of this library, or any other line,
/// which is rendered back unchanged.
pub enum Attribute {
    Ours(AttributeOurs),
    Ignore(AttributeDoc),
}

/// The value of a recognized `default` line.
pub open spec fn attr_default(a: Attribute) -> Option<DefaultLit> {
    match a {
        Attribute::Ours(o) => if o.meta.key@ == "default"@ { Some(o.meta.val) } else { None },
        Attribute::Ignore(_) => None,
    }
}

/// The value of a recognized `len` line whose value is one integer literal.
pub open spec fn attr_len(a: Attribute) -> Option<u64> {
    match a {
        Attribute::Ours(o) => if o.meta.key@ == "len"@ && o.meta.val.0@.len() == 1
            && o.meta.val.0@[0].kind == TokKind::Lit {
            int_lit_read(o.meta.val.0@[0].text@)
        } else {
            None
        },
        Attribute::Ignore(_) => None,
    }
}

impl Attribute {
    pub fn ours(&self) -> (r: Option<&AttributeOurs>)
        ensures
            match *self {
                Attribute::Ours(o) => r == Some(&o),
                Attribute::Ignore(_) => r is None,
            },
    {
        match self {
            Attribute::Ours(o) => Some(o),
            Attribute::Ignore(_) => None,
        }
    }

    pub fn ignore(&self) -> (r: Option<&AttributeDoc>)
        ensures
            match *self {
                Attribute::Ignore(d) => r == Some(&d),
                Attribute::Ours(_) => r is None,
            },
    {
        match self {
            Attribute::Ignore(d) => Some(d),
            Attribute::Ours(_) => None,
        }
    }

    /// The value of a `default` line.
    pub fn default(&self) -> (r: Option<&DefaultLit>)
        ensures
            r is Some <==> attr_default(*self) is Some,
            r is Some ==> *r->0 == attr_default(*self)->0,
    {
        match self {
            Attribute::Ours(o) => if text_eq(&o.meta.key, "default") {
                Some(&o.meta.val)
            } else {
                None
            },
            Attribute::Ignore(_) => None,
        }
    }

    /// The length given by a `len` line.
    pub fn len(&self) -> (r: Option<u64>)
        ensures
            r == attr_len(*self),
    {
        match self {
            Attribute::Ours(o) => if text_eq(&o.meta.key, "len") && o.meta.val.0.len() == 1
                && o.meta.val.0[0].kind == TokKind::Lit {
                integer_literal_value(o.meta.val.0[0].text.as_str())
            } else {
                None
            },
            Attribute::Ignore(_) => None,
        }
    }

    /// The tokens that the attribute renders as: nothing for a recognized
    /// line, the line itself otherwise.
    pub fn to_tokens(&self) -> (r: Vec<Tok>)
        ensures
            views(r@) == match *self {
                Attribute::Ours(_) => Seq::<TokV>::empty(),
                Attribute::Ignore(d) => doc_toks(d),
            },
    {
        match self {
            Attribute::Ours(_) => {
                let r: Vec<Tok> = Vec::new();
                assert(views(r@) =~= Seq::<TokV>::empty());
                r
            },
            Attribute::Ignore(d) => d.to_tokens(),
        }
    }
}

fn text_eq(s: &String, lit: &str) -> (r: bool)
    ensures
        r == (s@ == lit@),
{
    crate::token::text_is(s, lit)
}

/// Reads one attribute `# [ name = "text" ]` starting at `pos`. The string's
/// contents are lexed and classified as `MaybeOurs::classify` says; a line
/// whose literal is no string, or whose contents do not lex, is passed
/// through.
pub fn parse_attribute(s: &Vec<Tok>, pos: usize) -> (r: Result<(Attribute, usize), ParseError>)
    requires
        pos <= s@.len(),
    ensures
        r matches Ok((a, end)) ==> end == pos + 6 && end <= s@.len() && same_toks(
            views(s@).subrange(pos as int, end as int),
            doc_toks(
                match a {
                    Attribute::Ours(o) => o.doc,
                    Attribute::Ignore(d) => d,
                },
            ),
        ),
        (pos + 6 <= s@.len() && doc_shape(views(s@).subrange(pos as int, pos + 6))) <==> r is Ok,
        r matches Err(e) ==> e == attr_error(views(s@), pos as int),
        r matches Ok((Attribute::Ours(_), _)) ==> str_lit_read(s@[pos + 4].text@) is Some,
        r is Ok && str_lit_read(s@[pos + 4].text@) is None ==> (r matches Ok((Attribute::Ignore(_), _))),
{
    if s.len() - pos < 6 {
        return Err(ParseError::syntax(pos));
    }
    if !s[pos].is_punct_char('#') {
        return Err(ParseError::syntax(pos));
    }
    if !s[pos + 1].is_char(TokKind::Open, '[') {
        return Err(ParseError::syntax(pos + 1));
    }
    if s[pos + 2].kind != TokKind::Ident {
        return Err(ParseError::syntax(pos + 2));
    }
    if !s[pos + 3].is_punct_char('=') {
        return Err(ParseError::syntax(pos + 3));
    }
    if s[pos + 4].kind != TokKind::Lit {
        return Err(ParseError::syntax(pos + 4));
    }
    if !s[pos + 5].is_char(TokKind::Close, ']') {
        return Err(ParseError::syntax(pos + 5));
    }
    let doc = AttributeDoc { name: s[pos + 2].text.clone(), inner: s[pos + 4].text.clone() };
    assert(same_toks(views(s@).subrange(pos as int, pos + 6), doc_toks(doc)));
    let value = match string_literal_value(s[pos + 4].text.as_str()) {
        Some(v) => v,
        None => return Ok((Attribute::Ignore(doc), pos + 6)),
    };
    let inner = match lex(value.as_str()) {
        Some(t) => t,
        None => return Ok((Attribute::Ignore(doc), pos + 6)),
    };
    match MaybeOurs::classify(inner) {
        MaybeOurs::Ours(meta) => Ok((Attribute::Ours(AttributeOurs { doc, meta }), pos + 6)),
        MaybeOurs::Ignore(_) => Ok((Attribute::Ignore(doc), pos + 6)),
    }
}

/// The attributes of one field, in order.
pub struct Attributes(pub Vec<Attribute>);

/// The first `default` value among `s`.
pub open spec fn first_default(s: Seq<Attribute>) -> Option<DefaultLit>
    decreases s.len(),
{
    if s.len() == 0 {
        None
    } else {
        match attr_default(s[0]) {
            Some(d) => Some(d),
            None => first_default(s.drop_first()),
        }
    }
}

/// The first `len` value among `s`.
pub open spec fn first_len(s: Seq<Attribute>) -> Option<u64>
    decreases s.len(),
{
    if s.len() == 0 {
        None
    } else {
        match attr_len(s[0]) {
            Some(n) => Some(n),
            None => first_len(s.drop_first()),
        }
    }
}

/// The length a field's `len` lines give it: the first one, or zero.
pub open spec fn len_or_zero(s: Seq<Attribute>) -> u64 {
    match first_len(s) {
        Some(n) => n,
        None => 0,
    }
}

pub fn seek_len_lit(attrs: &Vec<Attribute>) -> (r: Option<u64>)
    ensures
        r == first_len(attrs@),
{
    let mut i: usize = 0;
    assert(attrs@.subrange(0, attrs@.len() as int) =~= attrs@);
    while i < attrs.len()
        invariant
            i <= attrs@.len(),
            first_len(attrs@) == first_len(attrs@.subrange(i as int, attrs@.len() as int)),
        decreases attrs@.len() - i,
    {
        let ghost rest = attrs@.subrange(i as int, attrs@.len() as int);
        assert(rest.drop_first() =~= attrs@.subrange(i + 1, attrs@.len() as int));
        let l = attrs[i].len();
        if l.is_some() {
            return l;
        }
        i = i + 1;
    }
    None
}

pub fn seek_default(attrs: &Vec<Attribute>) -> (r: Option<&DefaultLit>)
    ensures
        r is Some <==> first_default(attrs@) is Some,
        r is Some ==> *r->0 == first_default(attrs@)->0,
{
    let mut i: usize = 0;
    assert(attrs@.subrange(0, attrs@.len() as int) =~= attrs@);
    while i < attrs.len()
        invariant
            i <= attrs@.len(),
            first_default(attrs@) == first_default(attrs@.subrange(i as int, attrs@.len() as int)),
        decreases attrs@.len() - i,
    {
        let ghost rest = attrs@.subrange(i as int, attrs@.len() as int);
        assert(rest.drop_first() =~= attrs@.subrange(i + 1, attrs@.len() as int));
        let d = attrs[i].default();
        if d.is_some() {
            return d;
        }
        i = i + 1;
    }
    None
}

impl Attributes {
    /// The first `len` value.
    pub fn seek_len_lit(&self) -> (r: Option<u64>)
        ensures
            r == first_len(self.0@),
    {
        seek_len_lit(&self.0)
    }

    /// The first `len` value, or zero.
    pub fn seek_len(&self) -> (r: u64)
        ensures
            r == len_or_zero(self.0@),
    {
        match seek_len_lit(&self.0) {
            Some(n) => n,
            None => 0,
        }
    }

    /// The first `default` value.
    pub fn seek_default(&self) -> (r: Option<&DefaultLit>)
        ensures
            r is Some <==> first_default(self.0@) is Some,
            r is Some ==> *r->0 == first_default(self.0@)->0,
    {
        seek_default(&self.0)
    }
}

} // verus!
