//! Flat token sequences: the form in which declarations are read and in which
//! generated items are emitted.
//!
//! A delimited group is written as an opening marker, its contents and a
//! closing marker, so that every parser of the library is a linear scan.
use vstd::prelude::*;

verus! {

/// The kind of a token.
#[derive(Clone, Copy, PartialEq, Eq, Debug, Structural)]
pub enum TokKind {
    Ident,
    Punct,
    Lit,
    Open,
    Close,
}

/// One token: an identifier, a punctuation character, a literal as written,
/// or a group marker whose text is its bracket character.
#[derive(Debug, PartialEq, Eq)]
pub struct Tok {
    pub kind: TokKind,
    pub text: String,
    /// For punctuation: the next token follows without whitespace.
    pub joint: bool,
}

/// What a token stands for.
pub struct TokV {
    pub kind: TokKind,
    pub text: Seq<char>,
    pub joint: bool,
}

impl View for Tok {
    type V = TokV;

    open spec fn view(&self) -> TokV {
        TokV { kind: self.kind, text: self.text@, joint: self.joint }
    }
}

impl Clone for Tok {
    fn clone(&self) -> (r: Tok)
        ensures
            r == *self,
    {
        Tok { kind: self.kind, text: self.text.clone(), joint: self.joint }
    }
}

/// The views of a token sequence.
pub open spec fn views(s: Seq<Tok>) -> Seq<TokV> {
    s.map_values(|t: Tok| t@)
}

pub open spec fn tv(kind: TokKind, text: Seq<char>, joint: bool) -> TokV {
    TokV { kind, text, joint }
}

pub open spec fn ident_v(text: Seq<char>) -> TokV {
    tv(TokKind::Ident, text, false)
}

pub open spec fn punct_v(c: char, joint: bool) -> TokV {
    tv(TokKind::Punct, seq![c], joint)
}

pub open spec fn is_punct_v(t: TokV, c: char) -> bool {
    t.kind == TokKind::Punct && t.text == seq![c]
}

pub open spec fn is_ident_v(t: TokV, text: Seq<char>) -> bool {
    t.kind == TokKind::Ident && t.text == text
}

pub open spec fn is_open_v(t: TokV, c: char) -> bool {
    t.kind == TokKind::Open && t.text == seq![c]
}

pub open spec fn is_close_v(t: TokV, c: char) -> bool {
    t.kind == TokKind::Close && t.text == seq![c]
}

pub open spec fn open_v(c: char) -> TokV {
    tv(TokKind::Open, seq![c], false)
}

pub open spec fn close_v(c: char) -> TokV {
    tv(TokKind::Close, seq![c], false)
}

/// Relies on `String::push`: appends one character.
#[verifier::external_body]
pub(crate) fn push_char(s: &mut String, c: char)
    ensures
        final(s)@ == old(s)@.push(c),
{
    s.push(c)
}

/// Whether two tokens agree in kind and text (spacing aside).
pub open spec fn same_tok(a: TokV, b: TokV) -> bool {
    a.kind == b.kind && a.text == b.text
}

/// Whether two token sequences agree token by token in kind and text.
pub open spec fn same_toks(a: Seq<TokV>, b: Seq<TokV>) -> bool {
    a.len() == b.len() && forall|i: int| 0 <= i < a.len() ==> same_tok(#[trigger] a[i], b[i])
}

/// The decimal digits of `n`, without leading zeros.
pub open spec fn dec_digits(n: nat) -> Seq<char>
    decreases n,
{
    if n < 10 {
        seq![digit_char(n)]
    } else {
        dec_digits(n / 10).push(digit_char(n % 10))
    }
}

pub open spec fn digit_char(d: nat) -> char {
    if d == 0 { '0' } else if d == 1 { '1' } else if d == 2 { '2' } else if d == 3 { '3' }
    else if d == 4 { '4' } else if d == 5 { '5' } else if d == 6 { '6' } else if d == 7 { '7' }
    else if d == 8 { '8' } else { '9' }
}

fn digit(d: u64) -> (c: char)
    requires
        d < 10,
    ensures
        c == digit_char(d as nat),
{
    if d == 0 { '0' } else if d == 1 { '1' } else if d == 2 { '2' } else if d == 3 { '3' }
    else if d == 4 { '4' } else if d == 5 { '5' } else if d == 6 { '6' } else if d == 7 { '7' }
    else if d == 8 { '8' } else { '9' }
}

/// Writes `n` in decimal.
pub fn decimal_text(n: u64) -> (r: String)
    ensures
        r@ == dec_digits(n as nat),
    decreases n,
{
    if n < 10 {
        let mut s = String::new();
        push_char(&mut s, digit(n));
        s
    } else {
        let mut s = decimal_text(n / 10);
        push_char(&mut s, digit(n % 10));
        s
    }
}

/// Whether `s` holds exactly the characters of `lit`.
pub fn text_is(s: &String, lit: &str) -> (r: bool)
    ensures
        r == (s@ == lit@),
{
    let a = s.as_str();
    let n = a.unicode_len();
    if n != lit.unicode_len() {
        return false;
    }
    let mut i: usize = 0;
    while i < n
        invariant
            n == a@.len(),
            n == lit@.len(),
            a@ == s@,
            i <= n,
            forall|j: int| 0 <= j < i ==> a@[j] == lit@[j],
        decreases n - i,
    {
        if a.get_char(i) != lit.get_char(i) {
            return false;
        }
        i = i + 1;
    }
    assert(s@ =~= lit@);
    true
}

impl Tok {
    pub fn new(kind: TokKind, text: &str, joint: bool) -> (r: Tok)
        ensures
            r@ == tv(kind, text@, joint),
    {
        Tok { kind, text: String::from_str(text), joint }
    }

    pub fn ident(text: &str) -> (r: Tok)
        ensures
            r@ == ident_v(text@),
    {
        Tok::new(TokKind::Ident, text, false)
    }

    /// A token of one character.
    pub fn of_char(kind: TokKind, c: char, joint: bool) -> (r: Tok)
        ensures
            r@ == tv(kind, seq![c], joint),
    {
        let mut s = String::new();
        push_char(&mut s, c);
        Tok { kind, text: s, joint }
    }

    pub fn punct(c: char) -> (r: Tok)
        ensures
            r@ == punct_v(c, false),
    {
        Tok::of_char(TokKind::Punct, c, false)
    }

    /// A punctuation character joined to the token after it.
    pub fn punct_joint(c: char) -> (r: Tok)
        ensures
            r@ == punct_v(c, true),
    {
        Tok::of_char(TokKind::Punct, c, true)
    }

    pub fn open(c: char) -> (r: Tok)
        ensures
            r@ == open_v(c),
    {
        Tok::of_char(TokKind::Open, c, false)
    }

    pub fn close(c: char) -> (r: Tok)
        ensures
            r@ == close_v(c),
    {
        Tok::of_char(TokKind::Close, c, false)
    }

    /// An unsuffixed integer literal.
    pub fn int_lit(n: u64) -> (r: Tok)
        ensures
            r@ == tv(TokKind::Lit, dec_digits(n as nat), false),
    {
        Tok { kind: TokKind::Lit, text: decimal_text(n), joint: false }
    }

    pub fn ident_of(text: &String) -> (r: Tok)
        ensures
            r@ == ident_v(text@),
    {
        Tok { kind: TokKind::Ident, text: text.clone(), joint: false }
    }

    /// Whether this token is the identifier `lit`.
    pub fn is_ident(&self, lit: &str) -> (r: bool)
        ensures
            r == (self.kind == TokKind::Ident && self.text@ == lit@),
    {
        self.kind == TokKind::Ident && text_is(&self.text, lit)
    }

    /// Whether this token has kind `kind` and the single character `c` as text.
    pub fn is_char(&self, kind: TokKind, c: char) -> (r: bool)
        ensures
            r == (self.kind == kind && self.text@ == seq![c]),
    {
        if self.kind != kind {
            return false;
        }
        let a = self.text.as_str();
        if a.unicode_len() != 1 {
            return false;
        }
        let r = a.get_char(0) == c;
        assert(r ==> a@ =~= seq![c]);
        r
    }

    /// Whether this token is the punctuation character `c`.
    pub fn is_punct_char(&self, c: char) -> (r: bool)
        ensures
            r == (self.kind == TokKind::Punct && self.text@ == seq![c]),
    {
        self.is_char(TokKind::Punct, c)
    }

    /// Whether this token is the punctuation character written in `lit`.
    pub fn is_punct(&self, lit: &str) -> (r: bool)
        ensures
            r == (self.kind == TokKind::Punct && self.text@ == lit@),
    {
        self.kind == TokKind::Punct && text_is(&self.text, lit)
    }

    /// Whether this token opens a group with the bracket written in `lit`.
    pub fn is_open(&self, lit: &str) -> (r: bool)
        ensures
            r == (self.kind == TokKind::Open && self.text@ == lit@),
    {
        self.kind == TokKind::Open && text_is(&self.text, lit)
    }

    /// Whether this token closes a group with the bracket written in `lit`.
    pub fn is_close(&self, lit: &str) -> (r: bool)
        ensures
            r == (self.kind == TokKind::Close && self.text@ == lit@),
    {
        self.kind == TokKind::Close && text_is(&self.text, lit)
    }
}

/// Appends one token.
pub fn push_tok(out: &mut Vec<Tok>, t: Tok)
    ensures
        views(final(out)@) == views(old(out)@).push(t@),
{
    let ghost prev = out@;
    out.push(t);
    assert(views(out@) =~= views(prev).push(t@));
}

/// Appends a copy of every token of `src` to `out`.
pub fn extend_toks(out: &mut Vec<Tok>, src: &Vec<Tok>)
    ensures
        views(final(out)@) == views(old(out)@) + views(src@),
{
    let ghost start = out@;
    let mut i: usize = 0;
    while i < src.len()
        invariant
            i <= src@.len(),
            views(out@) == views(start) + views(src@.subrange(0, i as int)),
        decreases src@.len() - i,
    {
        let ghost prev = out@;
        out.push(src[i].clone());
        proof {
            assert(views(out@) =~= views(prev).push(src@[i as int]@));
            assert(views(src@.subrange(0, i + 1)) =~= views(src@.subrange(0, i as int)).push(src@[i as int]@));
            assert(views(out@) =~= views(start) + views(src@.subrange(0, i + 1)));
        }
        i = i + 1;
    }
    assert(src@.subrange(0, src@.len() as int) =~= src@);
}

} // verus!
