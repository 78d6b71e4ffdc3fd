//! Values of literal tokens, as Rust's own grammar reads them.
use vstd::prelude::*;

verus! {

/// The value of a string literal written as `text`, where it is one.
pub uninterp spec fn str_lit_value(text: Seq<char>) -> Option<Seq<char>>;

/// The value of an integer literal written as `text`, where it is one whose
/// digits fit in a `u64`.
pub uninterp spec fn int_lit_value(text: Seq<char>) -> Option<u64>;

/// Whether a literal's text starts as syn reads literals: a string (`"` or
/// `r`), a byte string or byte (`b` then `"`, `r` or `'`), a character
/// (`'`), a number (a digit or `-`), or a boolean (`t`, `f`). syn refuses any
/// other literal, a C string among them, by panicking.
pub open spec fn lit_readable(t: Seq<char>) -> bool {
    t.len() >= 1 && {
        let c = t[0];
        ||| c == '"'
        ||| c == 'r'
        ||| c == '\''
        ||| c == '-'
        ||| c == 't'
        ||| c == 'f'
        ||| ('0' <= c && c <= '9')
        ||| (c == 'b' && t.len() >= 2 && (t[1] == '"' || t[1] == 'r' || t[1] == '\''))
    }
}

/// The value of a string literal, for text that syn can read.
pub open spec fn str_lit_read(t: Seq<char>) -> Option<Seq<char>> {
    if lit_readable(t) { str_lit_value(t) } else { None }
}

/// The value of an integer literal, for text that syn can read.
pub open spec fn int_lit_read(t: Seq<char>) -> Option<u64> {
    if lit_readable(t) { int_lit_value(t) } else { None }
}

/// Whether a literal's text starts as syn reads literals.
pub fn literal_readable(text: &str) -> (r: bool)
    ensures
        r == lit_readable(text@),
{
    let n = text.unicode_len();
    if n == 0 {
        return false;
    }
    let c = text.get_char(0);
    if c == '"' || c == 'r' || c == '\'' || c == '-' || c == 't' || c == 'f' || ('0' <= c && c <= '9') {
        return true;
    }
    if c == 'b' && n >= 2 {
        let d = text.get_char(1);
        return d == '"' || d == 'r' || d == '\'';
    }
    false
}

/// Relies on `syn::parse_str::<syn::LitStr>` and `syn::LitStr::value`: the
/// unescaped contents of a string literal. `syn::Lit::new` panics on a
/// literal it does not recognise, so the text must start as it expects.
#[verifier::external_body]
fn parse_string_literal(text: &str) -> (r: Option<String>)
    requires
        lit_readable(text@),
    ensures
        r is Some <==> str_lit_value(text@) is Some,
        r is Some ==> r->0@ == str_lit_value(text@)->0,
{
    syn::parse_str::<syn::LitStr>(text).ok().map(|l| l.value())
}

/// Relies on `syn::parse_str::<syn::LitInt>` and `syn::LitInt::base10_parse`:
/// the value of an integer literal, any suffix aside. `syn::Lit::new` panics
/// on a literal it does not recognise, so the text must start as it expects.
#[verifier::external_body]
fn parse_integer_literal(text: &str) -> (r: Option<u64>)
    requires
        lit_readable(text@),
    ensures
        r == int_lit_value(text@),
{
    syn::parse_str::<syn::LitInt>(text).ok().and_then(|l| l.base10_parse::<u64>().ok())
}

/// The unescaped contents of a string literal; `None` for any other text.
pub fn string_literal_value(text: &str) -> (r: Option<String>)
    ensures
        r is Some <==> str_lit_read(text@) is Some,
        r is Some ==> r->0@ == str_lit_read(text@)->0,
{
    if literal_readable(text) {
        parse_string_literal(text)
    } else {
        None
    }
}

/// The value of an integer literal whose digits fit in a `u64`; `None` for
/// any other text.
pub fn integer_literal_value(text: &str) -> (r: Option<u64>)
    ensures
        r == int_lit_read(text@),
{
    if literal_readable(text) {
        parse_integer_literal(text)
    } else {
        None
    }
}

} // verus!
