//! Reading source text into flat tokens, and writing tokens back as text.
//!
//! Breaking text into token trees is left to proc-macro2; the trees are then
//! flattened here into the library's own token sequence.
use vstd::prelude::*;
use proc_macro2::{Delimiter, Spacing, TokenTree};
use vstd::string::StringExecFns;
use crate::token::{Tok, TokKind, TokV, views, extend_toks, push_char};

verus! {

/// proc-macro2's token stream, carried as an opaque value.
#[verifier::external_type_specification]
#[verifier::external_body]
pub struct ExTokenStream(proc_macro2::TokenStream);

/// proc-macro2's token tree, carried as an opaque value.
#[verifier::external_type_specification]
#[verifier::external_body]
pub struct ExTokenTree(proc_macro2::TokenTree);

/// How deeply groups may nest in a stream that is flattened.
pub const MAX_NESTING: u64 = 64;

/// The delimiter of a group.
pub enum Delim {
    Paren,
    Bracket,
    Brace,
    /// A group without visible brackets.
    Invisible,
}

/// The characters that open and close a group, none for an invisible one.
pub fn delim_chars(d: Delim) -> (r: Option<(char, char)>)
    ensures
        r == match d {
            Delim::Paren => Some(('(', ')')),
            Delim::Bracket => Some(('[', ']')),
            Delim::Brace => Some(('{', '}')),
            Delim::Invisible => None,
        },
{
    match d {
        Delim::Paren => Some(('(', ')')),
        Delim::Bracket => Some(('[', ']')),
        Delim::Brace => Some(('{', '}')),
        Delim::Invisible => None,
    }
}

/// One token tree, taken apart into plain values.
pub enum TreePart {
    /// A group: its delimiter and the stream inside.
    Group(Delim, proc_macro2::TokenStream),
    Ident(String),
    Punct(char, bool),
    Lit(String),
}

/// Relies on `<proc_macro2::TokenStream as FromStr>::from_str`: lexes `src`
/// into token trees, or fails on text that is not a token sequence.
#[verifier::external_body]
fn lex_stream(src: &str) -> (r: Option<proc_macro2::TokenStream>) {
    src.parse::<proc_macro2::TokenStream>().ok()
}

/// Relies on `<proc_macro2::TokenStream as IntoIterator>::into_iter`: the
/// top-level trees of a stream, in order.
#[verifier::external_body]
fn stream_trees(ts: proc_macro2::TokenStream) -> (r: Vec<proc_macro2::TokenTree>) {
    ts.into_iter().collect()
}

/// Relies on the accessors of proc-macro2's `Group`, `Ident`, `Punct` and
/// `Literal`: a tree's kind with its delimiter, text or character.
#[verifier::external_body]
fn tree_part(t: proc_macro2::TokenTree) -> (r: TreePart) {
    match t {
        TokenTree::Group(g) => TreePart::Group(match g.delimiter() {
            Delimiter::Parenthesis => Delim::Paren,
            Delimiter::Bracket => Delim::Bracket,
            Delimiter::Brace => Delim::Brace,
            Delimiter::None => Delim::Invisible,
        }, g.stream()),
        TokenTree::Ident(i) => TreePart::Ident(i.to_string()),
        TokenTree::Punct(p) => TreePart::Punct(p.as_char(), match p.spacing() {
            Spacing::Joint => true,
            Spacing::Alone => false,
        }),
        TokenTree::Literal(l) => TreePart::Lit(l.to_string()),
    }
}

/// How many groups are open after the tokens of `s`.
pub open spec fn depth_after(s: Seq<TokV>) -> int
    decreases s.len(),
{
    if s.len() == 0 {
        0
    } else {
        let d = depth_after(s.drop_last());
        match s.last().kind {
            TokKind::Open => d + 1,
            TokKind::Close => d - 1,
            _ => d,
        }
    }
}

/// Every prefix of `s` closes no more groups than it opened, and `s` closes
/// all that it opens.
pub open spec fn balanced(s: Seq<TokV>) -> bool {
    &&& depth_after(s) == 0
    &&& forall|i: int| 0 <= i <= s.len() ==> depth_after(#[trigger] s.subrange(0, i)) >= 0
}

proof fn lemma_depth_concat(a: Seq<TokV>, b: Seq<TokV>)
    ensures
        depth_after(a + b) == depth_after(a) + depth_after(b),
    decreases b.len(),
{
    if b.len() == 0 {
        assert(a + b =~= a);
    } else {
        assert((a + b).drop_last() =~= a + b.drop_last());
        lemma_depth_concat(a, b.drop_last());
    }
}

proof fn lemma_balanced_empty()
    ensures
        balanced(Seq::<TokV>::empty()),
{
    assert forall|i: int| 0 <= i <= 0 implies depth_after(#[trigger] Seq::<TokV>::empty().subrange(0, i)) >= 0 by {
        assert(Seq::<TokV>::empty().subrange(0, i) =~= Seq::<TokV>::empty());
    }
}

proof fn lemma_balanced_concat(a: Seq<TokV>, b: Seq<TokV>)
    requires
        balanced(a),
        balanced(b),
    ensures
        balanced(a + b),
{
    let s = a + b;
    lemma_depth_concat(a, b);
    assert forall|i: int| 0 <= i <= s.len() implies depth_after(#[trigger] s.subrange(0, i)) >= 0 by {
        if i <= a.len() {
            assert(s.subrange(0, i) =~= a.subrange(0, i));
        } else {
            let k = i - a.len();
            assert(s.subrange(0, i) =~= a + b.subrange(0, k));
            lemma_depth_concat(a, b.subrange(0, k));
        }
    }
}

proof fn lemma_balanced_single(t: TokV)
    requires
        t.kind != TokKind::Open,
        t.kind != TokKind::Close,
    ensures
        balanced(seq![t]),
{
    assert(seq![t].drop_last() =~= Seq::<TokV>::empty());
    assert(depth_after(Seq::<TokV>::empty()) == 0);
    assert forall|i: int| 0 <= i <= 1 implies depth_after(#[trigger] seq![t].subrange(0, i)) >= 0 by {
        if i == 0 {
            assert(seq![t].subrange(0, i) =~= Seq::<TokV>::empty());
        } else {
            assert(seq![t].subrange(0, i) =~= seq![t]);
        }
    }
}

proof fn lemma_balanced_wrap(o: TokV, g: Seq<TokV>, c: TokV)
    requires
        balanced(g),
        o.kind == TokKind::Open,
        c.kind == TokKind::Close,
    ensures
        balanced(seq![o] + g.push(c)),
{
    let os = seq![o];
    let s = os + g.push(c);
    assert(os.drop_last() =~= Seq::<TokV>::empty());
    assert(depth_after(Seq::<TokV>::empty()) == 0);
    assert(depth_after(os) == 1);
    assert(g.push(c).drop_last() =~= g);
    lemma_depth_concat(os, g.push(c));
    assert forall|i: int| 0 <= i <= s.len() implies depth_after(#[trigger] s.subrange(0, i)) >= 0 by {
        if i == 0 {
            assert(s.subrange(0, i) =~= Seq::<TokV>::empty());
        } else if i < s.len() {
            let k = i - 1;
            assert(s.subrange(0, i) =~= os + g.subrange(0, k));
            lemma_depth_concat(os, g.subrange(0, k));
        } else {
            assert(s.subrange(0, i) =~= s);
        }
    }
}

/// Flattens the trees of `ts` onto `out`; fails where groups nest deeper
/// than `depth`.
fn flatten_onto(ts: proc_macro2::TokenStream, depth: u64, out: &mut Vec<Tok>) -> (ok: bool)
    requires
        balanced(views(old(out)@)),
    ensures
        ok ==> balanced(views(final(out)@)),
    decreases depth,
{
    let mut trees = stream_trees(ts);
    while trees.len() > 0
        invariant
            balanced(views(out@)),
        decreases trees.len(),
    {
        let t = trees.remove(0);
        let ghost before = views(out@);
        let mut piece: Vec<Tok> = Vec::new();
        match tree_part(t) {
            TreePart::Group(delims, inner) => {
                if depth == 0 {
                    return false;
                }
                let mut sub: Vec<Tok> = Vec::new();
                proof {
                    assert(views(sub@) =~= Seq::<TokV>::empty());
                    lemma_balanced_empty();
                }
                if !flatten_onto(inner, depth - 1, &mut sub) {
                    return false;
                }
                match delim_chars(delims) {
                    Some((o, c)) => {
                        let mut ot = String::new();
                        push_char(&mut ot, o);
                        let mut ct = String::new();
                        push_char(&mut ct, c);
                        let ghost gv = views(sub@);
                        piece.push(Tok { kind: TokKind::Open, text: ot, joint: false });
                        let ghost ov = piece@[0]@;
                        assert(views(piece@) =~= seq![ov]);
                        extend_toks(&mut piece, &sub);
                        let ghost mid = piece@;
                        piece.push(Tok { kind: TokKind::Close, text: ct, joint: false });
                        proof {
                            let cv = piece@.last()@;
                            assert(views(piece@) =~= views(mid).push(cv));
                            assert(views(piece@) =~= seq![ov] + gv.push(cv));
                            lemma_balanced_wrap(ov, gv, cv);
                        }
                    },
                    None => {
                        piece = sub;
                    },
                }
            },
            TreePart::Ident(s) => {
                piece.push(Tok { kind: TokKind::Ident, text: s, joint: false });
            },
            TreePart::Punct(c, j) => {
                let mut s = String::new();
                push_char(&mut s, c);
                piece.push(Tok { kind: TokKind::Punct, text: s, joint: j });
            },
            TreePart::Lit(s) => {
                piece.push(Tok { kind: TokKind::Lit, text: s, joint: false });
            },
        }
        proof {
            if piece@.len() == 1 && piece@[0].kind != TokKind::Open && piece@[0].kind != TokKind::Close {
                assert(views(piece@) =~= seq![piece@[0]@]);
                lemma_balanced_single(piece@[0]@);
            }
        }
        assert(balanced(views(piece@)));
        extend_toks(out, &piece);
        proof {
            lemma_balanced_concat(before, views(piece@));
        }
    }
    true
}

/// The flat tokens of a stream whose groups nest at most `MAX_NESTING` deep.
/// Groups in the result open and close in matching pairs.
pub fn tokens_of_stream(ts: proc_macro2::TokenStream) -> (r: Option<Vec<Tok>>)
    ensures
        r is Some ==> balanced(views(r->0@)),
{
    let mut out: Vec<Tok> = Vec::new();
    proof {
        assert(views(out@) =~= Seq::<TokV>::empty());
        lemma_balanced_empty();
    }
    if flatten_onto(ts, MAX_NESTING, &mut out) {
        Some(out)
    } else {
        None
    }
}

/// Lexes source text into flat tokens; `None` where the text is no token
/// sequence. Groups in the result open and close in matching pairs.
pub fn lex(src: &str) -> (r: Option<Vec<Tok>>)
    ensures
        r is Some ==> balanced(views(r->0@)),
{
    match lex_stream(src) {
        Some(ts) => tokens_of_stream(ts),
        None => None,
    }
}

/// The text of a token sequence: tokens separated by single spaces, except
/// after punctuation that joins the next token.
pub open spec fn rendered(s: Seq<TokV>) -> Seq<char>
    decreases s.len(),
{
    if s.len() == 0 {
        Seq::empty()
    } else {
        let init = s.drop_last();
        let sep: Seq<char> = if init.len() > 0 && !init.last().joint { seq![' '] } else { Seq::empty() };
        rendered(init) + sep + s.last().text
    }
}

/// Writes a token sequence back as source text.
pub fn render(toks: &Vec<Tok>) -> (r: String)
    ensures
        r@ == rendered(views(toks@)),
{
    let mut out = String::new();
    let mut i: usize = 0;
    while i < toks.len()
        invariant
            i <= toks@.len(),
            out@ == rendered(views(toks@.subrange(0, i as int))),
        decreases toks@.len() - i,
    {
        let ghost pre = views(toks@.subrange(0, i as int));
        let ghost now = views(toks@.subrange(0, i + 1));
        assert(now.drop_last() =~= pre);
        if i > 0 && !toks[i - 1].joint {
            push_char(&mut out, ' ');
        }
        out.append(toks[i].text.as_str());
        assert(out@ =~= rendered(now));
        i = i + 1;
    }
    assert(toks@.subrange(0, toks@.len() as int) =~= toks@);
    out
}

} // verus!
