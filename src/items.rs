//! Whole generated items for one record, and the expansion of a declaration
//! into all of them.
use vstd::prelude::*;
use vstd::string::StringExecFns;
use crate::attributes::{DefaultLit, first_default};
use crate::error::{ErrorKind, ParseError};
use crate::field::FieldType;
use crate::generate::{init_toks, lit_v, to_owned_toks, to_wire_toks};
use crate::literal::{str_lit_read, string_literal_value};
use crate::path::{PathNamed, colon2, generics_toks, path_toks, segments_toks, shouty_snake_of, snake_of};
use crate::record::{Context, Field, record_toks, record_weight, remotes_of};
use crate::token::{
    Tok, TokKind, TokV, close_v, dec_digits, extend_toks, ident_v, is_punct_v, open_v, punct_v,
    push_tok, tv, views,
};

verus! {

/// A path with its last segment replaced by `ident` and no generics.
pub open spec fn bare_path(p: PathNamed, ident: Seq<char>) -> Seq<TokV> {
    (if p.leading_colon { colon2() } else { Seq::empty() }) + segments_toks(p.segments@) + seq![ident_v(ident)]
}

/// The owned record's path: `NameOwned`.
pub open spec fn owned_path(p: PathNamed) -> Seq<TokV> {
    bare_path(p, p.ident@ + "Owned"@)
}

/// The path of a record's size constant: `NAME_MAX_LEN`.
pub open spec fn max_len_path(p: PathNamed) -> Seq<TokV> {
    bare_path(p, shouty_snake_of(p.ident@ + "_MAX_LEN"@))
}

/// `name : e`.
pub open spec fn member(f: Field, e: Seq<TokV>) -> Seq<TokV> {
    seq![ident_v(f.ident@), punct_v(':', false)] + e
}

/// The default value of a field: its initializer given its `default` line.
pub open spec fn field_init(f: Field) -> Seq<TokV> {
    member(
        f,
        init_toks(
            f.ty,
            match first_default(f.attributes.0@) {
                Some(d) => Some(views(d.0@)),
                None => None,
            },
        ),
    )
}

/// `var . name`.
pub open spec fn access(var: Seq<char>, f: Field) -> Seq<TokV> {
    seq![ident_v(var), punct_v('.', false), ident_v(f.ident@)]
}

/// Comma-separated members, one per field, made by `g` from the field.
pub open spec fn members(fs: Seq<Field>, which: nat, var: Seq<char>) -> Seq<TokV>
    decreases fs.len(),
{
    if fs.len() == 0 {
        Seq::empty()
    } else {
        members(fs.drop_last(), which, var) + (if fs.len() > 1 { seq![punct_v(',', false)] } else {
            Seq::empty()
        }) + member_of(fs.last(), which, var)
    }
}

/// The member of a field: its default (0), its conversion to the owned
/// shape (1), or its conversion back to the wire shape (2).
pub open spec fn member_of(f: Field, which: nat, var: Seq<char>) -> Seq<TokV> {
    if which == 0 {
        field_init(f)
    } else if which == 1 {
        member(f, to_owned_toks(f.ty, access(var, f)))
    } else {
        member(f, to_wire_toks(f.ty, access(var, f)))
    }
}

/// `-> `
pub open spec fn arrow() -> Seq<TokV> {
    seq![punct_v('-', true), punct_v('>', false)]
}

/// `impl Default for NameOwned { fn default() -> NameOwned { NameOwned { defaults } } }`
pub open spec fn impl_default_toks(c: Context) -> Seq<TokV> {
    let o = owned_path(c.path);
    seq![ident_v("impl"@), ident_v("Default"@), ident_v("for"@)] + o + seq![
        open_v('{'),
        ident_v("fn"@),
        ident_v("default"@),
        open_v('('),
        close_v(')'),
    ] + arrow() + o + seq![open_v('{')] + o + seq![open_v('{')] + members(c.fields@, 0, "s"@) + seq![
        close_v('}'),
        close_v('}'),
        close_v('}'),
    ]
}

/// `impl<G> From<&Name<G>> for NameOwned { fn from(s: &Name<G>) -> NameOwned { NameOwned { conversions } } }`
pub open spec fn impl_from_ref_toks(c: Context) -> Seq<TokV> {
    let o = owned_path(c.path);
    let w = seq![punct_v('&', false)] + path_toks(c.path);
    seq![ident_v("impl"@)] + generics_toks(c.path.generics) + seq![ident_v("From"@), punct_v('<', false)] + w
        + seq![punct_v('>', false), ident_v("for"@)] + o + seq![
        open_v('{'),
        ident_v("fn"@),
        ident_v("from"@),
        open_v('('),
        ident_v("s"@),
        punct_v(':', false),
    ] + w + seq![close_v(')')] + arrow() + o + seq![open_v('{')] + o + seq![open_v('{')] + members(
        c.fields@,
        1,
        "s"@,
    ) + seq![close_v('}'), close_v('}'), close_v('}')]
}

/// The lifetime a record is generic over: the first generic argument when
/// it is a lifetime.
pub open spec fn lifetime_of(p: PathNamed) -> Seq<TokV> {
    match p.generics {
        Some(g) => if g@.len() >= 3 && is_punct_v(g@[1]@, '\'') && g@[2].kind == TokKind::Ident {
            seq![g@[1]@, g@[2]@]
        } else {
            Seq::empty()
        },
        None => Seq::empty(),
    }
}

/// `impl<G> From<&'a NameOwned> for Name<G> { fn from(s: &'a NameOwned) -> Name<G> { Name { conversions } } }`
pub open spec fn impl_from_owned_toks(c: Context) -> Seq<TokV> {
    let o = seq![punct_v('&', false)] + lifetime_of(c.path) + owned_path(c.path);
    let w = path_toks(c.path);
    seq![ident_v("impl"@)] + generics_toks(c.path.generics) + seq![ident_v("From"@), punct_v('<', false)] + o
        + seq![punct_v('>', false), ident_v("for"@)] + w + seq![
        open_v('{'),
        ident_v("fn"@),
        ident_v("from"@),
        open_v('('),
        ident_v("s"@),
        punct_v(':', false),
    ] + o + seq![close_v(')')] + arrow() + w + seq![open_v('{')] + bare_path(c.path, c.path.ident@) + seq![
        open_v('{'),
    ] + members(c.fields@, 2, "s"@) + seq![close_v('}'), close_v('}'), close_v('}')]
}

/// `+ OTHER_MAX_LEN * m` for each remote size.
pub open spec fn remote_terms(r: Seq<(PathNamed, u64)>) -> Seq<TokV>
    decreases r.len(),
{
    if r.len() == 0 {
        Seq::empty()
    } else {
        remote_terms(r.drop_last()) + seq![punct_v('+', false)] + max_len_path(r.last().0) + seq![
            punct_v('*', false),
            lit_v(dec_digits(r.last().1 as nat)),
        ]
    }
}

/// `pub const NAME_MAX_LEN: usize = w + OTHER_MAX_LEN * m ...;`
pub open spec fn impl_weight_toks(p: PathNamed, w: u64, r: Seq<(PathNamed, u64)>) -> Seq<TokV> {
    seq![ident_v("pub"@), ident_v("const"@)] + max_len_path(p) + seq![
        punct_v(':', false),
        ident_v("usize"@),
        punct_v('=', false),
        lit_v(dec_digits(w as nat)),
    ] + remote_terms(r) + seq![punct_v(';', false)]
}

/// The name of an entry point: `prefix_operation_snake_name`.
pub open spec fn binding_name(prefix: Seq<char>, op: Seq<char>, p: PathNamed) -> Seq<char> {
    prefix + "_"@ + op + "_"@ + snake_of(p.ident@)
}

fn push_bare_path(r: &mut Vec<Tok>, p: &PathNamed, ident: &String)
    ensures
        views(final(r)@) == views(old(r)@) + bare_path(*p, ident@),
{
    let q = p.renamed(ident.clone());
    let t = q.to_tokens();
    proof {
        crate::path::lemma_segments_len(p.segments@);
        assert(crate::path::generics_toks(q.generics) =~= Seq::<TokV>::empty());
        assert(path_toks(q) =~= bare_path(*p, ident@));
    }
    extend_toks(r, &t);
}

fn push_arrow(r: &mut Vec<Tok>)
    ensures
        views(final(r)@) == views(old(r)@) + arrow(),
{
    let ghost start = views(r@);
    push_tok(r, Tok::punct_joint('-'));
    push_tok(r, Tok::punct('>'));
    assert(views(r@) =~= start + arrow());
}

impl Field {
    /// `name: value`, with the field's default value in the owned shape.
    pub fn assignment_tokens(&self) -> (r: Vec<Tok>)
        ensures
            views(r@) == field_init(*self),
    {
        let mut r: Vec<Tok> = Vec::new();
        push_tok(&mut r, Tok::ident_of(&self.ident));
        push_tok(&mut r, Tok::punct(':'));
        let ghost head = views(r@);
        let init = self.ty.assignment_tokens(self.attributes.seek_default());
        extend_toks(&mut r, &init);
        assert(views(r@) =~= field_init(*self));
        r
    }

    /// `name: conversion`, converting `var.name` to the owned shape.
    pub fn from_tokens(&self, var: &String) -> (r: Vec<Tok>)
        ensures
            views(r@) == member(*self, to_owned_toks(self.ty, access(var@, *self))),
    {
        let mut e: Vec<Tok> = Vec::new();
        push_tok(&mut e, Tok::ident_of(var));
        push_tok(&mut e, Tok::punct('.'));
        push_tok(&mut e, Tok::ident_of(&self.ident));
        assert(views(e@) =~= access(var@, *self));
        let mut r: Vec<Tok> = Vec::new();
        push_tok(&mut r, Tok::ident_of(&self.ident));
        push_tok(&mut r, Tok::punct(':'));
        let conv = self.ty.from_tokens(&e);
        extend_toks(&mut r, &conv);
        assert(views(r@) =~= member(*self, to_owned_toks(self.ty, access(var@, *self))));
        r
    }

    /// `name: conversion`, converting the owned `var.name` back to the wire
    /// shape.
    pub fn from_owned_tokens(&self, var: &String) -> (r: Vec<Tok>)
        ensures
            views(r@) == member(*self, to_wire_toks(self.ty, access(var@, *self))),
    {
        let mut e: Vec<Tok> = Vec::new();
        push_tok(&mut e, Tok::ident_of(var));
        push_tok(&mut e, Tok::punct('.'));
        push_tok(&mut e, Tok::ident_of(&self.ident));
        assert(views(e@) =~= access(var@, *self));
        let mut r: Vec<Tok> = Vec::new();
        push_tok(&mut r, Tok::ident_of(&self.ident));
        push_tok(&mut r, Tok::punct(':'));
        let conv = self.ty.from_owned_tokens(&e);
        extend_toks(&mut r, &conv);
        assert(views(r@) =~= member(*self, to_wire_toks(self.ty, access(var@, *self))));
        r
    }
}

/// The members of all fields, comma-separated.
fn push_members(r: &mut Vec<Tok>, fs: &Vec<Field>, which: u8)
    requires
        which <= 2,
    ensures
        views(final(r)@) == views(old(r)@) + members(fs@, which as nat, "s"@),
{
    let ghost start = views(r@);
    let var = String::from_str("s");
    let mut i: usize = 0;
    assert(members(fs@.subrange(0, 0), which as nat, "s"@) =~= Seq::<TokV>::empty());
    assert(views(r@) =~= start + members(fs@.subrange(0, 0), which as nat, "s"@));
    while i < fs.len()
        invariant
            i <= fs@.len(),
            which <= 2,
            var@ == "s"@,
            views(r@) == start + members(fs@.subrange(0, i as int), which as nat, "s"@),
        decreases fs@.len() - i,
    {
        let ghost prev = views(r@);
        if i > 0 {
            push_tok(r, Tok::punct(','));
        }
        let ghost mid = views(r@);
        let m = if which == 0 {
            fs[i].assignment_tokens()
        } else if which == 1 {
            fs[i].from_tokens(&var)
        } else {
            fs[i].from_owned_tokens(&var)
        };
        extend_toks(r, &m);
        proof {
            let sub = fs@.subrange(0, i + 1);
            assert(sub.drop_last() =~= fs@.subrange(0, i as int));
            assert(sub.last() == fs@[i as int]);
            let sep: Seq<TokV> = if i > 0 { seq![punct_v(',', false)] } else { Seq::empty() };
            assert(mid =~= prev + sep);
            assert(views(m@) == member_of(fs@[i as int], which as nat, "s"@));
            assert(views(r@) =~= start + members(sub, which as nat, "s"@));
        }
        i = i + 1;
    }
    assert(fs@.subrange(0, fs@.len() as int) =~= fs@);
}

impl Context {
    /// `impl Default for NameOwned`, giving every field its default value.
    pub fn impl_default(&self) -> (r: Vec<Tok>)
        ensures
            views(r@) == impl_default_toks(*self),
    {
        let owned = self.path.ident.clone().concat("Owned");
        let mut r: Vec<Tok> = Vec::new();
        push_tok(&mut r, Tok::ident("impl"));
        push_tok(&mut r, Tok::ident("Default"));
        push_tok(&mut r, Tok::ident("for"));
        push_bare_path(&mut r, &self.path, &owned);
        push_tok(&mut r, Tok::open('{'));
        push_tok(&mut r, Tok::ident("fn"));
        push_tok(&mut r, Tok::ident("default"));
        push_tok(&mut r, Tok::open('('));
        push_tok(&mut r, Tok::close(')'));
        push_arrow(&mut r);
        push_bare_path(&mut r, &self.path, &owned);
        push_tok(&mut r, Tok::open('{'));
        push_bare_path(&mut r, &self.path, &owned);
        push_tok(&mut r, Tok::open('{'));
        push_members(&mut r, &self.fields, 0);
        push_tok(&mut r, Tok::close('}'));
        push_tok(&mut r, Tok::close('}'));
        push_tok(&mut r, Tok::close('}'));
        assert(views(r@) =~= impl_default_toks(*self));
        r
    }
}

fn push_generics(r: &mut Vec<Tok>, p: &PathNamed)
    ensures
        views(final(r)@) == views(old(r)@) + generics_toks(p.generics),
{
    match &p.generics {
        Some(g) => extend_toks(r, g),
        None => {
            assert(views(r@) =~= views(r@) + generics_toks(p.generics));
        },
    }
}

fn push_lifetime(r: &mut Vec<Tok>, p: &PathNamed)
    ensures
        views(final(r)@) == views(old(r)@) + lifetime_of(*p),
{
    let ghost start = views(r@);
    match &p.generics {
        Some(g) => {
            if g.len() >= 3 && g[1].is_punct_char('\'') && g[2].kind == TokKind::Ident {
                push_tok(r, g[1].clone());
                push_tok(r, g[2].clone());
            }
        },
        None => {},
    }
    assert(views(r@) =~= start + lifetime_of(*p));
}

impl Context {
    /// `impl From<&Name> for NameOwned`, converting each field to the owned
    /// shape.
    #[verifier::rlimit(60)]
    pub fn impl_from_ref(&self) -> (r: Vec<Tok>)
        ensures
            views(r@) == impl_from_ref_toks(*self),
    {
        let owned = self.path.ident.clone().concat("Owned");
        let mut w: Vec<Tok> = Vec::new();
        push_tok(&mut w, Tok::punct('&'));
        let pt = self.path.to_tokens();
        extend_toks(&mut w, &pt);
        assert(views(w@) =~= seq![punct_v('&', false)] + path_toks(self.path));
        let mut r: Vec<Tok> = Vec::new();
        push_tok(&mut r, Tok::ident("impl"));
        push_generics(&mut r, &self.path);
        push_tok(&mut r, Tok::ident("From"));
        push_tok(&mut r, Tok::punct('<'));
        extend_toks(&mut r, &w);
        push_tok(&mut r, Tok::punct('>'));
        push_tok(&mut r, Tok::ident("for"));
        push_bare_path(&mut r, &self.path, &owned);
        let ghost a1 = views(r@);
        assert(a1 =~= seq![ident_v("impl"@)] + generics_toks(self.path.generics) + seq![ident_v("From"@), punct_v('<', false)] + views(w@)
            + seq![punct_v('>', false), ident_v("for"@)] + owned_path(self.path));
        push_tok(&mut r, Tok::open('{'));
        push_tok(&mut r, Tok::ident("fn"));
        push_tok(&mut r, Tok::ident("from"));
        push_tok(&mut r, Tok::open('('));
        push_tok(&mut r, Tok::ident("s"));
        push_tok(&mut r, Tok::punct(':'));
        extend_toks(&mut r, &w);
        push_tok(&mut r, Tok::close(')'));
        push_arrow(&mut r);
        push_bare_path(&mut r, &self.path, &owned);
        push_tok(&mut r, Tok::open('{'));
        push_bare_path(&mut r, &self.path, &owned);
        push_tok(&mut r, Tok::open('{'));
        push_members(&mut r, &self.fields, 1);
        push_tok(&mut r, Tok::close('}'));
        push_tok(&mut r, Tok::close('}'));
        push_tok(&mut r, Tok::close('}'));
        assert(views(r@) =~= impl_from_ref_toks(*self));
        r
    }

    /// `impl From<&'a NameOwned> for Name<'a>`, reading each field back in
    /// the wire shape.
    #[verifier::rlimit(60)]
    pub fn impl_from_owned(&self) -> (r: Vec<Tok>)
        ensures
            views(r@) == impl_from_owned_toks(*self),
    {
        let owned = self.path.ident.clone().concat("Owned");
        let mut o: Vec<Tok> = Vec::new();
        push_tok(&mut o, Tok::punct('&'));
        push_lifetime(&mut o, &self.path);
        push_bare_path(&mut o, &self.path, &owned);
        assert(views(o@) =~= seq![punct_v('&', false)] + lifetime_of(self.path) + owned_path(self.path));
        let w = self.path.to_tokens();
        let mut r: Vec<Tok> = Vec::new();
        push_tok(&mut r, Tok::ident("impl"));
        push_generics(&mut r, &self.path);
        push_tok(&mut r, Tok::ident("From"));
        push_tok(&mut r, Tok::punct('<'));
        extend_toks(&mut r, &o);
        push_tok(&mut r, Tok::punct('>'));
        push_tok(&mut r, Tok::ident("for"));
        extend_toks(&mut r, &w);
        let ghost a1 = views(r@);
        assert(a1 =~= seq![ident_v("impl"@)] + generics_toks(self.path.generics) + seq![ident_v("From"@), punct_v('<', false)] + views(o@)
            + seq![punct_v('>', false), ident_v("for"@)] + views(w@));
        push_tok(&mut r, Tok::open('{'));
        push_tok(&mut r, Tok::ident("fn"));
        push_tok(&mut r, Tok::ident("from"));
        push_tok(&mut r, Tok::open('('));
        push_tok(&mut r, Tok::ident("s"));
        push_tok(&mut r, Tok::punct(':'));
        extend_toks(&mut r, &o);
        push_tok(&mut r, Tok::close(')'));
        push_arrow(&mut r);
        extend_toks(&mut r, &w);
        push_tok(&mut r, Tok::open('{'));
        push_bare_path(&mut r, &self.path, &self.path.ident);
        push_tok(&mut r, Tok::open('{'));
        push_members(&mut r, &self.fields, 2);
        push_tok(&mut r, Tok::close('}'));
        push_tok(&mut r, Tok::close('}'));
        push_tok(&mut r, Tok::close('}'));
        assert(views(r@) =~= impl_from_owned_toks(*self));
        r
    }

    /// `pub const NAME_MAX_LEN: usize = ...;` from the record's own size and
    /// the sizes it depends on.
    pub fn impl_weight(&self, w: u64, remotes: &Vec<(PathNamed, u64)>) -> (r: Vec<Tok>)
        ensures
            views(r@) == impl_weight_toks(self.path, w, remotes@),
    {
        let mut r: Vec<Tok> = Vec::new();
        push_tok(&mut r, Tok::ident("pub"));
        push_tok(&mut r, Tok::ident("const"));
        let name = shouty_max_len(&self.path);
        push_bare_path(&mut r, &self.path, &name);
        push_tok(&mut r, Tok::punct(':'));
        push_tok(&mut r, Tok::ident("usize"));
        push_tok(&mut r, Tok::punct('='));
        push_tok(&mut r, Tok::int_lit(w));
        let ghost head = views(r@);
        let mut i: usize = 0;
        assert(remote_terms(remotes@.subrange(0, 0)) =~= Seq::<TokV>::empty());
        assert(views(r@) =~= head + remote_terms(remotes@.subrange(0, 0)));
        while i < remotes.len()
            invariant
                i <= remotes@.len(),
                views(r@) == head + remote_terms(remotes@.subrange(0, i as int)),
            decreases remotes@.len() - i,
        {
            let ghost prev = views(r@);
            let (q, m) = &remotes[i];
            push_tok(&mut r, Tok::punct('+'));
            let qn = shouty_max_len(q);
            push_bare_path(&mut r, q, &qn);
            push_tok(&mut r, Tok::punct('*'));
            push_tok(&mut r, Tok::int_lit(*m));
            proof {
                let sub = remotes@.subrange(0, i + 1);
                assert(sub.drop_last() =~= remotes@.subrange(0, i as int));
                assert(sub.last() == remotes@[i as int]);
                assert(views(r@) =~= head + remote_terms(sub));
            }
            i = i + 1;
        }
        assert(remotes@.subrange(0, remotes@.len() as int) =~= remotes@);
        push_tok(&mut r, Tok::punct(';'));
        assert(views(r@) =~= impl_weight_toks(self.path, w, remotes@));
        r
    }
}

fn shouty_max_len(p: &PathNamed) -> (r: String)
    ensures
        r@ == shouty_snake_of(p.ident@ + "_MAX_LEN"@),
{
    let name = p.ident.clone().concat("_MAX_LEN");
    crate::path::shouty_snake_case(name.as_str())
}

/// The name of an entry point of the record at `p`.
pub fn binding_fn_name(prefix: &String, op: &str, p: &PathNamed) -> (r: String)
    ensures
        r@ == binding_name(prefix@, op@, *p),
{
    let snake = p.snake_ident();
    prefix.clone().concat("_").concat(op).concat("_").concat(snake.as_str())
}

impl Context {
    /// The name of the entry point that default-constructs the owned shape.
    pub fn binding_init(&self, prefix: &String) -> (r: String)
        ensures
            r@ == binding_name(prefix@, "init"@, self.path),
    {
        binding_fn_name(prefix, "init", &self.path)
    }

    /// The name of the entry point that copies the wire shape into the owned
    /// shape.
    pub fn binding_copy(&self, prefix: &String) -> (r: String)
        ensures
            r@ == binding_name(prefix@, "copy"@, self.path),
    {
        binding_fn_name(prefix, "copy", &self.path)
    }

    /// The name of the entry point that decodes bytes into the wire shape.
    pub fn binding_parse(&self, prefix: &String) -> (r: String)
        ensures
            r@ == binding_name(prefix@, "parse"@, self.path),
    {
        binding_fn_name(prefix, "parse", &self.path)
    }

    /// The name of the entry point that encodes the wire shape into bytes.
    pub fn binding_print(&self, prefix: &String) -> (r: String)
        ensures
            r@ == binding_name(prefix@, "print"@, self.path),
    {
        binding_fn_name(prefix, "print", &self.path)
    }

    /// The name of the entry point that encodes the owned shape into bytes.
    pub fn binding_print_owned(&self, prefix: &String) -> (r: String)
        ensures
            r@ == prefix@ + "_"@ + "print"@ + "_"@ + snake_of(self.path.ident@ + "Owned"@),
    {
        let owned = self.path.stackify();
        binding_fn_name(prefix, "print", &owned)
    }
}

} // verus!
