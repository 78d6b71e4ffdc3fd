//! Expanding one annotated declaration into every generated item.
use vstd::prelude::*;
use vstd::string::StringExecFns;
use crate::error::{ErrorKind, ParseError};
use crate::items::{
    bare_path, binding_name, impl_default_toks, impl_from_owned_toks,
    impl_from_ref_toks, impl_weight_toks,
};
use crate::literal::{str_lit_read, string_literal_value};
use crate::path::{PathNamed, generics_toks, path_toks, renamed_bare, snake_of};
use crate::record::{
    record_shape,
    fields_fit,
    lemma_same_toks_concat,
    Context, names_unique, owned_field, record_toks, record_weight, record_written, remotes_eq, remotes_of,
};
use crate::token::{
    Tok, TokKind, TokV, close_v, extend_toks, ident_v, is_punct_v, open_v, punct_v, push_tok, same_toks, tv,
    views,
};

verus! {

/// `name = "value"` in the attribute that starts the expansion.
pub struct ContainerAttribute {
    pub ident: String,
    /// The literal as written.
    pub val: String,
}

/// The configuration list: `prefix = "..."`, `rename_all = "..."`.
pub struct ContainerAttributes(pub Vec<ContainerAttribute>);

/// `name = literal`.
pub open spec fn entry_toks(c: ContainerAttribute) -> Seq<TokV> {
    seq![ident_v(c.ident@), punct_v('=', false), tv(TokKind::Lit, c.val@, false)]
}

/// Entries each followed by a comma.
pub open spec fn comma_entries(cs: Seq<ContainerAttribute>) -> Seq<TokV>
    decreases cs.len(),
{
    if cs.len() == 0 {
        Seq::empty()
    } else {
        comma_entries(cs.drop_last()) + entry_toks(cs.last()) + seq![punct_v(',', false)]
    }
}

/// Entries as written, separated by commas, with a comma after the last one
/// where `trailing` holds.
pub open spec fn config_written(cs: Seq<ContainerAttribute>, trailing: bool) -> Seq<TokV> {
    if cs.len() == 0 || trailing {
        comma_entries(cs)
    } else {
        comma_entries(cs.drop_last()) + entry_toks(cs.last())
    }
}

/// Whether the tokens from `i` on read `name = literal` pairs separated by
/// commas, a trailing comma allowed.
pub open spec fn config_shape_from(v: Seq<TokV>, i: int) -> bool
    decreases v.len() - i,
{
    if i < 0 || i >= v.len() {
        i == v.len()
    } else {
        &&& i + 3 <= v.len()
        &&& v[i].kind == TokKind::Ident
        &&& is_punct_v(v[i + 1], '=')
        &&& v[i + 2].kind == TokKind::Lit
        &&& (i + 3 == v.len() || (is_punct_v(v[i + 3], ',') && config_shape_from(v, i + 4)))
    }
}

/// The error reported where the configuration from `i` on breaks off.
pub open spec fn config_error(v: Seq<TokV>, i: int) -> ParseError
    decreases v.len() - i,
{
    if i < 0 || i >= v.len() || !(i + 3 <= v.len() && v[i].kind == TokKind::Ident && is_punct_v(v[i + 1], '=')
        && v[i + 2].kind == TokKind::Lit) {
        crate::path::syntax_at(i)
    } else if i + 3 == v.len() || !is_punct_v(v[i + 3], ',') {
        crate::path::syntax_at(i + 3)
    } else {
        config_error(v, i + 4)
    }
}

/// The first value given for `key`.
pub open spec fn first_val(s: Seq<ContainerAttribute>, key: Seq<char>) -> Option<String>
    decreases s.len(),
{
    if s.len() == 0 {
        None
    } else if s[0].ident@ == key {
        Some(s[0].val)
    } else {
        first_val(s.drop_first(), key)
    }
}

impl ContainerAttributes {
    /// Reads `name = literal` pairs separated by commas, a trailing comma
    /// allowed; fails at the first token that breaks that shape.
    pub fn parse(s: &Vec<Tok>) -> (r: Result<ContainerAttributes, ParseError>)
        ensures
            r is Ok <==> config_shape_from(views(s@), 0),
            r matches Err(e) ==> e == config_error(views(s@), 0),
            r matches Ok(c) ==> same_toks(views(s@), config_written(c.0@, true)) || same_toks(
                views(s@),
                config_written(c.0@, false),
            ),
            s@.len() == 0 ==> (r matches Ok(c) && c.0@.len() == 0),
    {
        let n = s.len();
        let mut out: Vec<ContainerAttribute> = Vec::new();
        let mut i: usize = 0;
        let mut trailing = true;
        assert(views(s@).subrange(0, 0) =~= comma_entries(out@));
        loop
            invariant_except_break
                same_toks(views(s@).subrange(0, i as int), comma_entries(out@)),
                trailing,
            invariant
                n == s@.len(),
                i <= n,
                n == 0 ==> out@.len() == 0,
                config_shape_from(views(s@), 0) <==> config_shape_from(views(s@), i as int),
                !config_shape_from(views(s@), 0) ==> config_error(views(s@), 0) == config_error(views(s@), i as int),
            ensures
                i == n,
                config_shape_from(views(s@), 0),
                same_toks(views(s@), config_written(out@, trailing)),
            decreases n - i,
        {
            if i >= n {
                assert(views(s@).subrange(0, i as int) =~= views(s@));
                break;
            }
            assert(views(s@)[i as int] == s@[i as int]@);
            if n - i < 3 || s[i].kind != TokKind::Ident || !s[i + 1].is_punct_char('=') || s[i + 2].kind
                != TokKind::Lit {
                return Err(ParseError::syntax(i));
            }
            assert(views(s@)[i + 1] == s@[i + 1]@ && views(s@)[i + 2] == s@[i + 2]@);
            let ghost prev = out@;
            let ghost start = i;
            out.push(ContainerAttribute { ident: s[i].text.clone(), val: s[i + 2].text.clone() });
            i = i + 3;
            proof {
                let v = views(s@);
                assert(out@.drop_last() =~= prev);
                assert(v.subrange(0, i as int) =~= v.subrange(0, start as int) + seq![v[start as int], v[start + 1], v[start + 2]]);
                lemma_same_toks_concat(v.subrange(0, start as int), comma_entries(prev), seq![v[start as int], v[start + 1], v[start + 2]], entry_toks(out@.last()));
            }
            if i < n {
                assert(views(s@)[i as int] == s@[i as int]@);
                if !s[i].is_punct_char(',') {
                    return Err(ParseError::syntax(i));
                }
                proof {
                    let v = views(s@);
                    assert(v.subrange(0, i + 1) =~= v.subrange(0, i as int) + seq![v[i as int]]);
                    lemma_same_toks_concat(v.subrange(0, i as int), comma_entries(prev) + entry_toks(out@.last()), seq![v[i as int]], seq![punct_v(',', false)]);
                    assert(comma_entries(out@) =~= comma_entries(prev) + entry_toks(out@.last()) + seq![punct_v(',', false)]);
                }
                i = i + 1;
            } else {
                trailing = false;
                proof {
                    assert(views(s@).subrange(0, i as int) =~= views(s@));
                    assert(config_written(out@, false) =~= comma_entries(prev) + entry_toks(out@.last()));
                }
                break;
            }
        }
        let c = ContainerAttributes(out);
        assert(same_toks(views(s@), config_written(c.0@, trailing)));
        Ok(c)
    }

    /// The literal given for `find`, the first one if several are.
    pub fn seek_val(&self, find: &str) -> (r: Option<&String>)
        ensures
            r is Some <==> first_val(self.0@, find@) is Some,
            r is Some ==> *r->0 == first_val(self.0@, find@)->0,
    {
        let v = &self.0;
        let mut i: usize = 0;
        assert(v@.subrange(0, v@.len() as int) =~= v@);
        while i < v.len()
            invariant
                v@ == self.0@,
                i <= v@.len(),
                first_val(v@, find@) == first_val(v@.subrange(i as int, v@.len() as int), find@),
            decreases v@.len() - i,
        {
            let ghost rest = v@.subrange(i as int, v@.len() as int);
            assert(rest.drop_first() =~= v@.subrange(i + 1, v@.len() as int));
            if crate::token::text_is(&v[i].ident, find) {
                return Some(&v[i].val);
            }
            i = i + 1;
        }
        None
    }
}

/// The names of the flat entry points of one record.
pub struct Bindings {
    pub init: String,
    pub copy: String,
    pub parse: String,
    pub print: String,
    pub print_owned: String,
}

/// Everything generated for one declaration.
pub struct Expansion {
    /// The configuration as read.
    pub config: ContainerAttributes,
    /// The declaration as read.
    pub record: Context,
    /// Its owned counterpart.
    pub owned_record: Context,
    /// `pub const NAME_MAX_LEN: usize = ...;`
    pub size_const: Vec<Tok>,
    /// `pub type NameBorrowed<G> = Name<G>;`
    pub alias: Vec<Tok>,
    /// The wire record with its derive lines.
    pub wire: Vec<Tok>,
    /// The owned record.
    pub owned: Vec<Tok>,
    pub impl_default: Vec<Tok>,
    pub impl_from_ref: Vec<Tok>,
    pub impl_from_owned: Vec<Tok>,
    /// The text of the entry-point prefix.
    pub prefix: String,
    pub bindings: Bindings,
}

/// `# [ name ( args ) ]`.
pub open spec fn attr_line(name: Seq<char>, args: Seq<TokV>) -> Seq<TokV> {
    seq![punct_v('#', false), open_v('['), ident_v(name), open_v('(')] + args + seq![close_v(')'), close_v(']')]
}

/// The lines above the wire record: C layout, the codec's derives, the
/// codec's crate path and, where given, the field renaming rule.
pub open spec fn wire_header(rename: Option<String>) -> Seq<TokV> {
    attr_line("repr"@, seq![ident_v("C"@)]) + attr_line(
        "derive"@,
        seq![ident_v("serde"@), punct_v(':', true), punct_v(':', false), ident_v("Deserialize"@)],
    ) + attr_line(
        "derive"@,
        seq![ident_v("serde"@), punct_v(':', true), punct_v(':', false), ident_v("Serialize"@)],
    ) + attr_line(
        "serde"@,
        seq![ident_v("crate"@), punct_v('=', false), tv(TokKind::Lit, "\"self::serde\""@, false)],
    ) + match rename {
        Some(v) => attr_line(
            "serde"@,
            seq![ident_v("rename_all"@), punct_v('=', false), tv(TokKind::Lit, v@, false)],
        ),
        None => Seq::empty(),
    }
}

/// `pub type NameBorrowed<G> = Name<G>;`
pub open spec fn alias_toks(p: PathNamed) -> Seq<TokV> {
    seq![ident_v("pub"@), ident_v("type"@)] + bare_path(p, p.ident@ + "Borrowed"@) + generics_toks(p.generics)
        + seq![punct_v('=', false)] + path_toks(p) + seq![punct_v(';', false)]
}

fn push_attr_line(r: &mut Vec<Tok>, name: &str, args: &Vec<Tok>)
    ensures
        views(final(r)@) == views(old(r)@) + attr_line(name@, views(args@)),
{
    let ghost start = views(r@);
    push_tok(r, Tok::punct('#'));
    push_tok(r, Tok::open('['));
    push_tok(r, Tok::ident(name));
    push_tok(r, Tok::open('('));
    extend_toks(r, args);
    push_tok(r, Tok::close(')'));
    push_tok(r, Tok::close(']'));
    assert(views(r@) =~= start + attr_line(name@, views(args@)));
}

fn derive_args(name: &str) -> (r: Vec<Tok>)
    ensures
        views(r@) == seq![ident_v("serde"@), punct_v(':', true), punct_v(':', false), ident_v(name@)],
{
    let mut a: Vec<Tok> = Vec::new();
    push_tok(&mut a, Tok::ident("serde"));
    push_tok(&mut a, Tok::punct_joint(':'));
    push_tok(&mut a, Tok::punct(':'));
    push_tok(&mut a, Tok::ident(name));
    assert(views(a@) =~= seq![ident_v("serde"@), punct_v(':', true), punct_v(':', false), ident_v(name@)]);
    a
}

fn key_value_args(key: &str, lit: &String) -> (r: Vec<Tok>)
    ensures
        views(r@) == seq![ident_v(key@), punct_v('=', false), tv(TokKind::Lit, lit@, false)],
{
    let mut a: Vec<Tok> = Vec::new();
    push_tok(&mut a, Tok::ident(key));
    push_tok(&mut a, Tok::punct('='));
    push_tok(&mut a, Tok { kind: TokKind::Lit, text: lit.clone(), joint: false });
    assert(views(a@) =~= seq![ident_v(key@), punct_v('=', false), tv(TokKind::Lit, lit@, false)]);
    a
}

/// The lines above the wire record.
pub fn wire_header_toks(rename: Option<&String>) -> (r: Vec<Tok>)
    ensures
        views(r@) == wire_header(
            match rename {
                Some(v) => Some(*v),
                None => None,
            },
        ),
{
    let mut r: Vec<Tok> = Vec::new();
    assert(views(r@) =~= Seq::<TokV>::empty());
    let mut c: Vec<Tok> = Vec::new();
    push_tok(&mut c, Tok::ident("C"));
    assert(views(c@) =~= seq![ident_v("C"@)]);
    push_attr_line(&mut r, "repr", &c);
    push_attr_line(&mut r, "derive", &derive_args("Deserialize"));
    push_attr_line(&mut r, "derive", &derive_args("Serialize"));
    let krate = String::from_str("\"self::serde\"");
    push_attr_line(&mut r, "serde", &key_value_args("crate", &krate));
    let ghost head = views(r@);
    match rename {
        Some(v) => push_attr_line(&mut r, "serde", &key_value_args("rename_all", v)),
        None => {},
    }
    r
}

/// Whether a record's size and every multiplicity on the way fit in a `u64`.
pub open spec fn weight_ok(c: Context) -> bool {
    &&& fields_fit(c.fields@)
    &&& record_weight(c.fields@) <= u64::MAX
    &&& forall|i: int| 0 <= i < remotes_of(c.fields@).len() ==> #[trigger] remotes_of(c.fields@)[i].1 <= u64::MAX
}

/// Whether the configuration's prefix, if given, is a string literal.
pub open spec fn prefix_ok(config: ContainerAttributes) -> bool {
    match first_val(config.0@, "prefix"@) {
        Some(l) => str_lit_read(l@) is Some,
        None => true,
    }
}

/// What an expansion holds, given its configuration and record.
pub open spec fn expansion_of(e: Expansion) -> bool {
    &&& views(e.wire@) == wire_header(first_val(e.config.0@, "rename_all"@)) + record_toks(e.record)
    &&& match first_val(e.config.0@, "prefix"@) {
        Some(l) => str_lit_read(l@) == Some(e.prefix@),
        None => e.prefix@ == "sbc"@,
    }
    &&& views(e.impl_default@) == impl_default_toks(e.record)
    &&& views(e.impl_from_ref@) == impl_from_ref_toks(e.record)
    &&& views(e.impl_from_owned@) == impl_from_owned_toks(e.record)
    &&& views(e.alias@) == alias_toks(e.record.path)
    &&& renamed_bare(e.record.path, e.owned_record.path, e.record.path.ident@ + "Owned"@)
    &&& e.owned_record.fields@.len() == e.record.fields@.len()
    &&& forall|i: int| 0 <= i < e.record.fields@.len() ==> owned_field(#[trigger] e.record.fields@[i], e.owned_record.fields@[i])
    &&& views(e.owned@) == attr_line("repr"@, seq![ident_v("C"@)]) + record_toks(e.owned_record)
    &&& exists|rem: Seq<(PathNamed, u64)>| remotes_eq(rem, remotes_of(e.record.fields@)) && views(e.size_const@)
        == impl_weight_toks(e.record.path, record_weight(e.record.fields@) as u64, rem)
    &&& e.bindings.init@ == binding_name(e.prefix@, "init"@, e.record.path)
    &&& e.bindings.copy@ == binding_name(e.prefix@, "copy"@, e.record.path)
    &&& e.bindings.parse@ == binding_name(e.prefix@, "parse"@, e.record.path)
    &&& e.bindings.print@ == binding_name(e.prefix@, "print"@, e.record.path)
    &&& e.bindings.print_owned@ == e.prefix@ + "_"@ + "print"@ + "_"@ + snake_of(e.record.path.ident@ + "Owned"@)
}

/// Derives every generated item of a record under a configuration. Fails
/// exactly where the prefix given is not a string literal (a syntax error)
/// or where the record's size does not fit in a `u64`.
pub fn expand_record(config: ContainerAttributes, record: Context) -> (r: Result<Expansion, ParseError>)
    ensures
        r is Ok <==> prefix_ok(config) && weight_ok(record),
        r matches Ok(e) ==> expansion_of(e) && e.record == record && e.config == config,
        r matches Err(err) ==> err.kind == (if prefix_ok(config) { ErrorKind::SizeOverflow } else {
            ErrorKind::Syntax
        }),
{
    let prefix = match config.seek_val("prefix") {
        Some(lit) => match string_literal_value(lit.as_str()) {
            Some(v) => v,
            None => return Err(ParseError::syntax(0)),
        },
        None => {
            proof {
                reveal_strlit("sbc");
            }
            String::from_str("sbc")
        },
    };
    let rename = match config.seek_val("rename_all") {
        Some(v) => Some(v.clone()),
        None => None,
    };
    let (w, remotes) = match record.weight() {
        Some(x) => x,
        None => return Err(ParseError { kind: ErrorKind::SizeOverflow, pos: 0 }),
    };
    let owned_record = record.into_owned();
    let size_const = record.impl_weight(w, &remotes);
    let mut alias: Vec<Tok> = Vec::new();
    push_tok(&mut alias, Tok::ident("pub"));
    push_tok(&mut alias, Tok::ident("type"));
    let borrowed = record.path.renamed(record.path.ident.clone().concat("Borrowed"));
    let bt = borrowed.to_tokens();
    extend_toks(&mut alias, &bt);
    match &record.path.generics {
        Some(g) => extend_toks(&mut alias, g),
        None => {},
    }
    push_tok(&mut alias, Tok::punct('='));
    let pt = record.path.to_tokens();
    extend_toks(&mut alias, &pt);
    push_tok(&mut alias, Tok::punct(';'));
    proof {
        crate::path::lemma_segments_len(record.path.segments@);
        assert(views(alias@) =~= alias_toks(record.path));
    }
    let mut wire = wire_header_toks(rename.as_ref());
    let rt = record.to_tokens();
    extend_toks(&mut wire, &rt);
    let mut owned: Vec<Tok> = Vec::new();
    let mut c: Vec<Tok> = Vec::new();
    push_tok(&mut c, Tok::ident("C"));
    assert(views(c@) =~= seq![ident_v("C"@)]);
    assert(views(owned@) =~= Seq::<TokV>::empty());
    push_attr_line(&mut owned, "repr", &c);
    let ot = owned_record.to_tokens();
    extend_toks(&mut owned, &ot);
    let bindings = Bindings {
        init: record.binding_init(&prefix),
        copy: record.binding_copy(&prefix),
        parse: record.binding_parse(&prefix),
        print: record.binding_print(&prefix),
        print_owned: record.binding_print_owned(&prefix),
    };
    let impl_default = record.impl_default();
    let impl_from_ref = record.impl_from_ref();
    let impl_from_owned = record.impl_from_owned();
    let e = Expansion {
        config,
        record,
        owned_record,
        size_const,
        alias,
        wire,
        owned,
        impl_default,
        impl_from_ref,
        impl_from_owned,
        prefix,
        bindings,
    };
    assert(remotes_eq(remotes@, remotes_of(e.record.fields@)));
    Ok(e)
}

/// Expands one declaration, configured by the tokens of its attribute
/// (`prefix`, default `sbc`; `rename_all`), into every generated item. Fails
/// where either token sequence does not follow its grammar, and otherwise
/// as `expand_record` says.
pub fn binding(attr: &Vec<Tok>, item: &Vec<Tok>) -> (r: Result<Expansion, ParseError>)
    ensures
        !config_shape_from(views(attr@), 0) ==> r == Err::<Expansion, ParseError>(config_error(views(attr@), 0)),
        config_shape_from(views(attr@), 0) && !record_shape(views(item@)) ==> r == Err::<Expansion, ParseError>(
            crate::record::record_error(views(item@)),
        ),
        config_shape_from(views(attr@), 0) && record_shape(views(item@)) && (forall|c: ContainerAttributes, t: bool|
            same_toks(views(attr@), config_written(c.0@, t)) ==> prefix_ok(c)) && (forall|d: Context, t: bool|
            same_toks(views(item@), record_written(d, t)) ==> weight_ok(d)) ==> r is Ok,
        r matches Ok(e) ==> {
            &&& expansion_of(e)
            &&& prefix_ok(e.config)
            &&& weight_ok(e.record)
            &&& same_toks(views(attr@), config_written(e.config.0@, true)) || same_toks(
                views(attr@),
                config_written(e.config.0@, false),
            )
            &&& exists|t: bool| same_toks(views(item@), record_written(e.record, t))
            &&& names_unique(e.record.fields@)
            &&& forall|k: int| 0 <= k < e.record.fields@.len() ==> crate::field::classified(#[trigger] e.record.fields@[k].ty)
        },
{
    let config = match ContainerAttributes::parse(attr) {
        Ok(c) => c,
        Err(e) => return Err(e),
    };
    let record = match Context::parse(item) {
        Ok(c) => c,
        Err(e) => return Err(e),
    };
    expand_record(config, record)
}

} // verus!
