use serde_bindgen_core::expand::{Expansion, binding};
use serde_bindgen_core::lex::lex;
use serde_bindgen_core::token::{Tok, TokKind};
use std::collections::HashMap;

fn expand(attr: &str, item: &str) -> Expansion {
    binding(&lex(attr).unwrap(), &lex(item).unwrap()).unwrap()
}

/// Evaluates `pub const NAME: usize = a + B * c ...;` given the constants
/// already known.
fn size_constant(toks: &Vec<Tok>, known: &HashMap<String, u64>) -> (String, u64) {
    let name = toks[2].text.clone();
    let mut total: u64 = 0;
    let mut i = 6;
    let mut term: u64 = 1;
    while i < toks.len() {
        let t = &toks[i];
        if t.kind == TokKind::Lit {
            term *= t.text.parse::<u64>().unwrap();
        } else if t.kind == TokKind::Ident {
            term *= known[&t.text];
        } else if t.text == "+" || t.text == ";" {
            total += term;
            term = 1;
        }
        i += 1;
    }
    (name, total)
}

const REMOTE: &str = r#"
pub struct Remote<'a> {
    ///sbc: len = 4
    id0: &'a str,
}
"#;

const FOO: &str = r#"
pub struct Foo<'a> {
    id0: u8,
    id1: i8,
    id2: u16,
    id3: i16,
    id4: u32,
    id5: i32,
    id6: bool,
    /// sbc: len = 5
    id7: &'a str,
    id8: Remote<'a>,
    id9: Remote<'a>,
    id10: [u8; 3],
    id11: [Remote<'a>; 3],
    /// sbc: len = 3
    id12: [[&'a str; 3]; 2],
}
"#;

const DATA: &'static str = r#"
{
    "id0": 255,
    "id1": -128,
    "id2": 65535,
    "id3": -32767,
    "id4": 4294967295,
    "id5": -2147483647,
    "id6": false,
    "id7": "12345",
    "id8": {"id0": "1234"},
    "id9": {"id0": "5678"},
    "id10": [255,255,255],
    "id11": [{"id0": "1234"},{"id0": "1234"},{"id0": "1234"}],
    "id12": [["123","456","789"],["123","456","789"]]
}
"#;

#[test]
fn can_calculate_weight() {
    let mut known = HashMap::new();
    let remote = expand("prefix = \"test\"", REMOTE);
    let (name, value) = size_constant(&remote.size_const, &known);
    assert_eq!(name, "REMOTE_MAX_LEN");
    known.insert(name, value);
    let foo = expand("prefix = \"test\"", FOO);
    let (name, foo_max_len) = size_constant(&foo.size_const, &known);
    assert_eq!(name, "FOO_MAX_LEN");
    // The widest value of every field, printed without whitespace.
    let len = DATA.chars().filter(|c| !c.is_whitespace()).count() as u64;
    assert!(len > 0);
    assert_eq!(len, foo_max_len);
}

#[test]
fn can_calcualte_weight_when_renamed() {
    // Keys renamed to camel case are no longer than the field names, so the
    // constant still bounds the encoding.
    let known = HashMap::new();
    let foo = expand("prefix = \"test\", rename_all = \"camelCase\"", "pub struct Foo { this_is_a_thing: u8 }");
    let (_, max_len) = size_constant(&foo.size_const, &known);
    let widest = "{\"thisIsAThing\":255}".len() as u64;
    assert!(widest <= max_len);
    assert_eq!(max_len, 23);
}
