//! Paths to records: `[::] seg :: ... :: Name [<generics>]`.
use vstd::prelude::*;
use vstd::string::StringExecFns;
use crate::error::{ErrorKind, ParseError};
use crate::token::{
    Tok, TokKind, TokV, extend_toks, ident_v, is_punct_v, punct_v, same_tok, same_toks, views,
};
use heck::{ToShoutySnakeCase, ToSnakeCase};

verus! {

/// `snake_case` of a name, as heck writes it.
pub uninterp spec fn snake_of(s: Seq<char>) -> Seq<char>;

/// `SHOUTY_SNAKE_CASE` of a name, as heck writes it.
pub uninterp spec fn shouty_snake_of(s: Seq<char>) -> Seq<char>;

/// Relies on `heck::ToSnakeCase::to_snake_case`.
#[verifier::external_body]
pub fn snake_case(s: &str) -> (r: String)
    ensures
        r@ == snake_of(s@),
{
    s.to_snake_case()
}

/// Relies on `heck::ToShoutySnakeCase::to_shouty_snake_case`.
#[verifier::external_body]
pub fn shouty_snake_case(s: &str) -> (r: String)
    ensures
        r@ == shouty_snake_of(s@),
{
    s.to_shouty_snake_case()
}

/// A path naming a record, with the generic arguments written after it.
pub struct PathNamed {
    pub leading_colon: bool,
    /// The segments before the last one.
    pub segments: Vec<String>,
    pub ident: String,
    /// The tokens from `<` to the matching `>`, both included.
    pub generics: Option<Vec<Tok>>,
}

/// Whether `v[i]` and `v[i + 1]` read `::`.
pub open spec fn colon2_at(v: Seq<TokV>, i: int) -> bool {
    0 <= i && i + 1 < v.len() && is_punct_v(v[i], ':') && is_punct_v(v[i + 1], ':')
}

/// Where the repetitions of `:: ident` starting at `i` end.
pub open spec fn segments_end(v: Seq<TokV>, i: int) -> int
    decreases v.len() - i,
{
    if colon2_at(v, i) && i + 2 < v.len() && v[i + 2].kind == TokKind::Ident {
        segments_end(v, i + 3)
    } else {
        i
    }
}

/// With `depth` angle brackets open before `i`, the index just after the `>`
/// that closes them all; `None` where they never close or a `>` closes none.
pub open spec fn angle_end(v: Seq<TokV>, i: int, depth: nat) -> Option<int>
    decreases v.len() - i,
{
    if i < 0 || i >= v.len() {
        None
    } else if is_punct_v(v[i], '<') {
        angle_end(v, i + 1, depth + 1)
    } else if is_punct_v(v[i], '>') {
        if depth == 0 {
            None
        } else if depth == 1 {
            Some(i + 1)
        } else {
            angle_end(v, i + 1, (depth - 1) as nat)
        }
    } else {
        angle_end(v, i + 1, depth)
    }
}

/// Where a path written from `pos` on ends: an optional `::`, an identifier,
/// more `:: ident`, and optional generic arguments; `None` where no path
/// starts at `pos` or its generic arguments do not close.
pub open spec fn path_end(v: Seq<TokV>, pos: int) -> Option<int> {
    let i = if colon2_at(v, pos) { pos + 2 } else { pos };
    if !(0 <= i < v.len() && v[i].kind == TokKind::Ident) {
        None
    } else {
        let j = segments_end(v, i + 1);
        if j < v.len() && is_punct_v(v[j], '<') {
            angle_end(v, j, 0)
        } else {
            Some(j)
        }
    }
}

/// A syntax error at token `i`.
pub open spec fn syntax_at(i: int) -> ParseError {
    ParseError { kind: ErrorKind::Syntax, pos: i as usize }
}

/// The error reported for angle brackets that do not close: the `>` that
/// closes none, or the end of the tokens.
pub open spec fn angle_error(v: Seq<TokV>, i: int, depth: nat) -> ParseError
    decreases v.len() - i,
{
    if i < 0 || i >= v.len() {
        syntax_at(i)
    } else if is_punct_v(v[i], '<') {
        angle_error(v, i + 1, depth + 1)
    } else if is_punct_v(v[i], '>') {
        if depth <= 1 {
            syntax_at(i)
        } else {
            angle_error(v, i + 1, (depth - 1) as nat)
        }
    } else {
        angle_error(v, i + 1, depth)
    }
}

/// The error reported where no path is written from `pos` on: the token
/// where a name is missing, or where its generic arguments fail to close.
pub open spec fn path_error(v: Seq<TokV>, pos: int) -> ParseError {
    let i = if colon2_at(v, pos) { pos + 2 } else { pos };
    if !(0 <= i < v.len() && v[i].kind == TokKind::Ident) {
        syntax_at(i)
    } else {
        angle_error(v, segments_end(v, i + 1), 0)
    }
}

/// Whether `s[pos]` is an identifier that no `::` or `<` follows.
pub open spec fn bare_name_at(s: Seq<Tok>, pos: int) -> bool {
    &&& 0 <= pos < s.len()
    &&& s[pos].kind == TokKind::Ident
    &&& (pos + 1 == s.len() || (!is_punct_v(s[pos + 1]@, ':') && !is_punct_v(s[pos + 1]@, '<')))
}

pub open spec fn colon2() -> Seq<TokV> {
    seq![punct_v(':', true), punct_v(':', false)]
}

/// `seg ::` for each segment.
pub open spec fn segments_toks(s: Seq<String>) -> Seq<TokV>
    decreases s.len(),
{
    if s.len() == 0 {
        Seq::empty()
    } else {
        segments_toks(s.drop_last()) + seq![ident_v(s.last()@)] + colon2()
    }
}

pub open spec fn generics_toks(g: Option<Vec<Tok>>) -> Seq<TokV> {
    match g {
        Some(v) => views(v@),
        None => Seq::empty(),
    }
}

/// The tokens a path is written as.
pub open spec fn path_toks(p: PathNamed) -> Seq<TokV> {
    (if p.leading_colon { colon2() } else { Seq::empty() }) + segments_toks(p.segments@) + seq![
        ident_v(p.ident@),
    ] + generics_toks(p.generics)
}

pub proof fn lemma_segments_len(s: Seq<String>)
    ensures
        segments_toks(s).len() == 3 * s.len(),
    decreases s.len(),
{
    if s.len() > 0 {
        lemma_segments_len(s.drop_last());
    }
}

/// `p` and `q` name the same path with the same generics.
pub open spec fn path_eq(p: PathNamed, q: PathNamed) -> bool {
    &&& p.leading_colon == q.leading_colon
    &&& p.segments@ == q.segments@
    &&& p.ident == q.ident
    &&& generics_toks(p.generics) == generics_toks(q.generics)
    &&& (p.generics is Some <==> q.generics is Some)
}

/// `q` is `p` with its last segment renamed to `ident` and no generics.
pub open spec fn renamed_bare(p: PathNamed, q: PathNamed, ident: Seq<char>) -> bool {
    &&& q.leading_colon == p.leading_colon
    &&& q.segments@ == p.segments@
    &&& q.ident@ == ident
    &&& q.generics is None
}

fn copy_range(s: &Vec<Tok>, from: usize, to: usize) -> (r: Vec<Tok>)
    requires
        from <= to <= s@.len(),
    ensures
        r@ == s@.subrange(from as int, to as int),
{
    let mut r: Vec<Tok> = Vec::new();
    let mut i = from;
    while i < to
        invariant
            from <= i <= to <= s@.len(),
            r@ == s@.subrange(from as int, i as int),
        decreases to - i,
    {
        r.push(s[i].clone());
        assert(r@ =~= s@.subrange(from as int, i + 1));
        i = i + 1;
    }
    r
}

/// Reads generic arguments `< ... >` starting at `pos`, which holds `<`.
fn parse_generics(s: &Vec<Tok>, pos: usize) -> (r: Result<(Vec<Tok>, usize), ParseError>)
    requires
        pos < s@.len(),
        is_punct_v(s@[pos as int]@, '<'),
    ensures
        r matches Ok((g, end)) ==> pos < end <= s@.len() && g@ == s@.subrange(pos as int, end as int),
        r is Ok <==> angle_end(views(s@), pos as int, 0) is Some,
        r matches Err(e) ==> e == angle_error(views(s@), pos as int, 0),
        r matches Ok((_, end)) ==> angle_end(views(s@), pos as int, 0) == Some(end as int),
{
    let n = s.len();
    let mut depth: usize = 0;
    let mut i = pos;
    while i < n
        invariant
            n == s@.len(),
            pos <= i <= n,
            pos < n,
            is_punct_v(s@[pos as int]@, '<'),
            i > pos ==> depth > 0,
            depth <= i - pos,
            angle_end(views(s@), pos as int, 0) == angle_end(views(s@), i as int, depth as nat),
            angle_error(views(s@), pos as int, 0) == angle_error(views(s@), i as int, depth as nat),
        decreases n - i,
    {
        assert(views(s@)[i as int] == s@[i as int]@);
        if s[i].is_punct_char('<') {
            depth = depth + 1;
        } else if s[i].is_punct_char('>') {
            if depth == 0 {
                return Err(ParseError::syntax(i));
            }
            depth = depth - 1;
            if depth == 0 {
                return Ok((copy_range(s, pos, i + 1), i + 1));
            }
        }
        i = i + 1;
    }
    Err(ParseError::syntax(i))
}

fn is_colon2_at(s: &Vec<Tok>, pos: usize) -> (r: bool)
    requires
        pos <= s@.len(),
    ensures
        r == (pos + 1 < s@.len() && is_punct_v(s@[pos as int]@, ':') && is_punct_v(
            s@[pos + 1]@,
            ':',
        )),
        r == colon2_at(views(s@), pos as int),
{
    proof {
        if pos + 1 < s@.len() {
            assert(views(s@)[pos as int] == s@[pos as int]@ && views(s@)[pos + 1] == s@[pos + 1]@);
        }
    }
    s.len() > 1 && pos < s.len() - 1 && s[pos].is_punct_char(':') && s[pos + 1].is_punct_char(':')
}

impl PathNamed {
    /// Reads a path starting at `pos`: an optional leading `::`, identifiers
    /// separated by `::`, and optional generic arguments.
    pub fn parse(s: &Vec<Tok>, pos: usize) -> (r: Result<(PathNamed, usize), ParseError>)
        requires
            pos <= s@.len(),
        ensures
            r matches Ok((p, end)) ==> pos < end <= s@.len() && same_toks(
                views(s@).subrange(pos as int, end as int),
                path_toks(p),
            ),
            r is Ok <==> path_end(views(s@), pos as int) is Some,
            r matches Ok((_, end)) ==> path_end(views(s@), pos as int) == Some(end as int),
            r matches Err(e) ==> e == path_error(views(s@), pos as int),
            bare_name_at(s@, pos as int) ==> (r matches Ok((p, end)) && end == pos + 1 && p.ident@
                == s@[pos as int].text@ && !p.leading_colon && p.segments@.len() == 0 && p.generics is None),
            pos < s@.len() && s@[pos as int].kind != TokKind::Ident && !is_punct_v(s@[pos as int]@, ':')
                ==> r is Err,
    {
        let mut i = pos;
        let n = s.len();
        let leading_colon = is_colon2_at(s, i);
        if leading_colon {
            i = i + 2;
        }
        let ghost lead: Seq<TokV> = if leading_colon { colon2() } else { Seq::empty() };
        assert(same_toks(views(s@).subrange(pos as int, i as int), lead));
        let mut segments: Vec<String> = Vec::new();
        proof {
            if i < s@.len() {
                assert(views(s@)[i as int] == s@[i as int]@);
            }
        }
        if i >= s.len() || s[i].kind != TokKind::Ident {
            return Err(ParseError::syntax(i));
        }
        let mut ident = s[i].text.clone();
        i = i + 1;
        let ghost first = i;
        assert(views(s@).subrange(pos as int, i as int) =~= views(s@).subrange(pos as int, i - 1) + seq![s@[i - 1]@]);
        while is_colon2_at(s, i) && s.len() - i > 2 && s[i + 2].kind == TokKind::Ident
            invariant
                pos < i <= s@.len(),
                segments_end(views(s@), first as int) == segments_end(views(s@), i as int),
                bare_name_at(s@, pos as int) ==> i == pos + 1 && segments@.len() == 0 && ident@ == s@[pos as int].text@ && !leading_colon,
                same_toks(
                    views(s@).subrange(pos as int, i as int),
                    lead + segments_toks(segments@) + seq![ident_v(ident@)],
                ),
            decreases s@.len() - i,
        {
            let ghost old_segs = segments@;
            let ghost old_i = i;
            assert(views(s@)[i + 2] == s@[i + 2]@);
            segments.push(ident);
            ident = s[i + 2].text.clone();
            i = i + 3;
            proof {
                assert(segments@.drop_last() =~= old_segs);
                assert(views(s@).subrange(pos as int, i as int) =~= views(s@).subrange(pos as int, old_i as int)
                    + seq![s@[old_i as int]@, s@[old_i + 1]@, s@[old_i + 2]@]);
                let a = views(s@).subrange(pos as int, i as int);
                let b = lead + segments_toks(segments@) + seq![ident_v(ident@)];
                assert(b =~= lead + segments_toks(old_segs) + seq![ident_v(segments@.last()@)] + colon2() + seq![ident_v(ident@)]);
                assert(same_toks(a, b));
            }
        }
        proof {
            if i + 2 < s@.len() {
                assert(views(s@)[i + 2] == s@[i + 2]@);
            }
            if i < s@.len() {
                assert(views(s@)[i as int] == s@[i as int]@);
            }
        }
        let mut generics: Option<Vec<Tok>> = None;
        if i < s.len() && s[i].is_punct_char('<') {
            match parse_generics(s, i) {
                Ok((g, end)) => {
                    proof {
                        assert(views(g@) =~= views(s@).subrange(i as int, end as int));
                        assert(views(s@).subrange(pos as int, end as int) =~= views(s@).subrange(pos as int, i as int) + views(s@).subrange(i as int, end as int));
                    }
                    generics = Some(g);
                    i = end;
                },
                Err(e) => return Err(e),
            }
        }
        let p = PathNamed { leading_colon, segments, ident, generics };
        assert(same_toks(views(s@).subrange(pos as int, i as int), path_toks(p)));
        Ok((p, i))
    }

    /// The path written as tokens.
    pub fn to_tokens(&self) -> (r: Vec<Tok>)
        ensures
            views(r@) == path_toks(*self),
    {
        let mut r: Vec<Tok> = Vec::new();
        if self.leading_colon {
            r.push(Tok::punct_joint(':'));
            r.push(Tok::punct(':'));
        }
        assert(views(r@) =~= (if self.leading_colon { colon2() } else { Seq::empty() }));
        let ghost lead = views(r@);
        let mut i: usize = 0;
        while i < self.segments.len()
            invariant
                i <= self.segments@.len(),
                views(r@) == lead + segments_toks(self.segments@.subrange(0, i as int)),
            decreases self.segments@.len() - i,
        {
            let ghost prev = views(r@);
            r.push(Tok::ident_of(&self.segments[i]));
            r.push(Tok::punct_joint(':'));
            r.push(Tok::punct(':'));
            proof {
                let sub = self.segments@.subrange(0, i + 1);
                assert(sub.drop_last() =~= self.segments@.subrange(0, i as int));
                assert(views(r@) =~= prev + seq![ident_v(sub.last()@)] + colon2());
            }
            i = i + 1;
        }
        assert(self.segments@.subrange(0, self.segments@.len() as int) =~= self.segments@);
        let ghost mid = views(r@);
        r.push(Tok::ident_of(&self.ident));
        assert(views(r@) =~= mid + seq![ident_v(self.ident@)]);
        match &self.generics {
            Some(g) => extend_toks(&mut r, g),
            None => {},
        }
        assert(views(r@) =~= path_toks(*self));
        r
    }

    /// Whether the path is a bare name of one of the scalar types.
    pub fn is_primative(&self) -> (r: bool)
        ensures
            r == (crate::field::scalar_named(self.ident@) is Some),
    {
        crate::field::Scalar::from_name(&self.ident).is_some()
    }

    pub fn clone_path(&self) -> (r: PathNamed)
        ensures
            path_eq(r, *self),
    {
        let mut segments: Vec<String> = Vec::new();
        let mut i: usize = 0;
        while i < self.segments.len()
            invariant
                i <= self.segments@.len(),
                segments@ == self.segments@.subrange(0, i as int),
            decreases self.segments@.len() - i,
        {
            segments.push(self.segments[i].clone());
            assert(segments@ =~= self.segments@.subrange(0, i + 1));
            i = i + 1;
        }
        assert(self.segments@.subrange(0, self.segments@.len() as int) =~= self.segments@);
        let generics = match &self.generics {
            Some(g) => Some(copy_range(g, 0, g.len())),
            None => None,
        };
        proof {
            if self.generics is Some {
                let g = self.generics->0;
                assert(g@.subrange(0, g@.len() as int) =~= g@);
            }
        }
        PathNamed { leading_colon: self.leading_colon, segments, ident: self.ident.clone(), generics }
    }

    /// A copy of the path with the last segment renamed and no generics.
    pub fn renamed(&self, ident: String) -> (r: PathNamed)
        ensures
            renamed_bare(*self, r, ident@),
    {
        let mut segments: Vec<String> = Vec::new();
        let mut i: usize = 0;
        while i < self.segments.len()
            invariant
                i <= self.segments@.len(),
                segments@ == self.segments@.subrange(0, i as int),
            decreases self.segments@.len() - i,
        {
            segments.push(self.segments[i].clone());
            assert(segments@ =~= self.segments@.subrange(0, i + 1));
            i = i + 1;
        }
        assert(self.segments@.subrange(0, self.segments@.len() as int) =~= self.segments@);
        PathNamed { leading_colon: self.leading_colon, segments, ident, generics: None }
    }

    /// Renames the last segment.
    pub fn rename(&mut self, name: String)
        ensures
            final(self).ident@ == name@,
            final(self).leading_colon == old(self).leading_colon,
            final(self).segments@ == old(self).segments@,
            generics_toks(final(self).generics) == generics_toks(old(self).generics),
            final(self).generics is Some <==> old(self).generics is Some,
    {
        self.ident = name;
    }

    /// Drops the generic arguments.
    pub fn strip_generics(&mut self)
        ensures
            final(self).generics is None,
            final(self).ident == old(self).ident,
            final(self).leading_colon == old(self).leading_colon,
            final(self).segments@ == old(self).segments@,
    {
        self.generics = None;
    }

    /// The owned counterpart: `NameOwned`, without generics.
    pub fn stackify(&self) -> (r: PathNamed)
        ensures
            renamed_bare(*self, r, self.ident@ + "Owned"@),
    {
        let name = self.ident.clone().concat("Owned");
        self.renamed(name)
    }

    /// The path of the record's size constant: `NAME_MAX_LEN`.
    pub fn into_shouty_max_len(&self) -> (r: PathNamed)
        ensures
            renamed_bare(*self, r, shouty_snake_of(self.ident@ + "_MAX_LEN"@)),
    {
        let name = self.ident.clone().concat("_MAX_LEN");
        self.renamed(shouty_snake_case(name.as_str()))
    }

    /// The name in snake case, for entry-point names.
    pub fn snake_ident(&self) -> (r: String)
        ensures
            r@ == snake_of(self.ident@),
    {
        snake_case(self.ident.as_str())
    }
}

} // verus!
