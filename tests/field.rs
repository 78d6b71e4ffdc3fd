use serde_bindgen_core::field::FieldType;
use serde_bindgen_core::lex::{lex, render};
use serde_bindgen_core::literal::string_literal_value;
use serde_bindgen_core::record::Field;
use serde_bindgen_core::token::Tok;

fn squeeze(s: &str) -> String {
    s.chars().filter(|c| !c.is_whitespace()).collect()
}

fn norm(src: &str) -> String {
    squeeze(&render(&lex(src).unwrap()))
}

fn out(t: &Vec<Tok>) -> String {
    squeeze(&render(t))
}

fn field(src: &str) -> Field {
    let t = lex(src).unwrap();
    let (f, end) = Field::parse(&t, 0).unwrap();
    assert_eq!(end, t.len());
    f
}

fn ty(src: &str) -> FieldType {
    let t = lex(src).unwrap();
    let (f, end) = FieldType::parse(&t, 0).unwrap();
    assert_eq!(end, t.len());
    f
}

#[test]
fn can_parse_field_opt_bool_true() {
    let attr = field("/// sbc: default = true\nid: bool");
    let lit = attr.attributes.0[0].default().unwrap();
    assert_eq!(lit.0.len(), 1);
    assert_eq!(lit.0[0].text, "true");
}

#[test]
fn can_parse_field_opt_bool_false() {
    let attr = field("/// sbc: default = false\nid: bool");
    let lit = attr.attributes.0[0].default().unwrap();
    assert_eq!(lit.0.len(), 1);
    assert_eq!(lit.0[0].text, "false");
}

#[test]
fn can_parse_field_opt_str() {
    let attr = field("/// sbc: default = \"hello\"\n/// sbc: len = 3\nid: &'a str");
    let init = attr.attributes.0[0].default().unwrap();
    let len = attr.attributes.0[1].len().unwrap();
    assert_eq!(string_literal_value(&init.0[0].text).unwrap(), "hello");
    assert_eq!(len, 3);
}

#[test]
fn can_parse_field_opt_int() {
    let attr = field("/// sbc: default = 42\nid: u8");
    let init = attr.attributes.0[0].default().unwrap();
    assert_eq!(init.0[0].text, "42");
}

#[test]
fn can_to_tokens_field_type_array_prim() {
    let sample = ty("[bool; 11]");
    assert_eq!(norm("[bool;11]"), out(&sample.to_tokens()));
}

#[test]
fn can_to_tokens_field_type_array_struct() {
    let sample = ty("[::foo::bar::Baz<'a>; 11]");
    assert_eq!(norm("[::foo::bar::Baz<'a>;11]"), out(&sample.to_tokens()));
}

#[test]
fn can_to_tokens_field_type_ref() {
    let sample = ty("&'a str");
    assert_eq!(norm("&'a str"), out(&sample.to_tokens()));
}

#[test]
fn can_to_tokens_for_field_ref_str() {
    let sample = field("pub foo: &'a str");
    assert_eq!(norm("pub foo: &'a str"), out(&sample.to_tokens()));
}

#[test]
fn can_to_tokens_for_field_nested_struct() {
    let sample = field("pub foo: Jim");
    assert_eq!(norm("pub foo: Jim"), out(&sample.to_tokens()));
}

#[test]
fn can_to_tokens_field_prim() {
    let sample = field("pub foo: bool");
    assert_eq!(norm("pub foo: bool"), out(&sample.to_tokens()));
}

#[test]
fn can_to_tokens_for_field_array() {
    let sample = field("pub foo: [::baz<'a>; 11]");
    assert_eq!(norm("pub foo: [::baz<'a>; 11]"), out(&sample.to_tokens()));
}

#[test]
fn can_to_tokens_for_field_array_with_ignors() {
    let sample = field(
        "/// sbc: len = 12\n/// garbage\n/// sbc: default = true\n/// more garbage\npub foo: [::baz<'a>; 11]",
    );
    let expect = norm("/// garbage\n/// more garbage\npub foo: [::baz<'a>; 11]");
    assert_eq!(expect, out(&sample.to_tokens()));
}

#[test]
fn can_assignment_tokens_ref_str() {
    let sample = field("/// sbc: default = \"initial foo\"\npub foo: &'a str");
    let expect = norm("foo: serde_bindgen_core::SafeCopy::safe_copy(&\"initial foo\")");
    assert_eq!(expect, out(&sample.assignment_tokens()));
}

#[test]
fn can_assignment_tokens_nested_struct() {
    let sample = field("pub foo: Baz");
    assert_eq!(norm("foo: Default::default()"), out(&sample.assignment_tokens()));
}

#[test]
fn can_assignment_tokens_bool() {
    let sample = field("/// sbc: default = true\npub foo: bool");
    assert_eq!(norm("foo: true"), out(&sample.assignment_tokens()));
}

#[test]
fn can_assignment_tokens_int() {
    let sample = field("/// sbc: default = 42\npub foo: u8");
    assert_eq!(norm("foo: 42"), out(&sample.assignment_tokens()));
}

#[test]
fn can_assignment_tokens_array_struct() {
    let sample = field("foo: [Baz<'a>; 2]");
    assert_eq!(norm("foo: [Default::default(),Default::default()]"), out(&sample.assignment_tokens()));
}

#[test]
fn can_assignment_tokens_array_prim() {
    let sample = field("/// sbc: default = 42\nfoo: [u32; 3]");
    assert_eq!(norm("foo: [42,42,42]"), out(&sample.assignment_tokens()));
}

#[test]
fn can_assignment_tokens_array_prim_recursive() {
    let sample = field("/// sbc: default = 42\nfoo: [[u32; 2]; 3]");
    assert_eq!(norm("foo: [[42,42],[42,42],[42,42]]"), out(&sample.assignment_tokens()));
}

#[test]
fn can_from_tokens_ref_str() {
    let sample = field("/// sbc: default = \"initial foo\"\npub foo: &'a str");
    let expect = norm("foo: serde_bindgen_core::SafeCopy::safe_copy(&s.foo)");
    assert_eq!(expect, out(&sample.from_tokens(&"s".to_string())));
}

#[test]
fn can_from_tokens_nested_struct() {
    let sample = field("pub foo: Baz<'a>");
    assert_eq!(norm("foo: From::from(&s.foo)"), out(&sample.from_tokens(&"s".to_string())));
}

#[test]
fn can_from_tokens_bool() {
    let sample = field("/// sbc: default = true\npub foo: bool");
    assert_eq!(norm("foo: s.foo"), out(&sample.from_tokens(&"s".to_string())));
}

#[test]
fn can_from_tokens_int() {
    let sample = field("/// sbc: default = 42\npub foo: u8");
    assert_eq!(norm("foo: s.foo"), out(&sample.from_tokens(&"s".to_string())));
}

#[test]
fn can_from_tokens_array_struct() {
    let sample = field("foo: [Baz<'a>; 2]");
    let expect = norm("foo: [From::from(&s.foo[0]),From::from(&s.foo[1])]");
    assert_eq!(expect, out(&sample.from_tokens(&"s".to_string())));
}

#[test]
fn can_from_tokens_array_prim() {
    let sample = field("foo: [u8; 2]");
    assert_eq!(norm("foo: [s.foo[0], s.foo[1]]"), out(&sample.from_tokens(&"s".to_string())));
}

#[test]
fn owned_text_reads_back_through_buffer() {
    let sample = field("/// sbc: len = 4\npub foo: [&'a str; 2]");
    let expect = norm(
        "foo: [serde_bindgen_core::copy::text_of(&s.foo[0]), serde_bindgen_core::copy::text_of(&s.foo[1])]",
    );
    assert_eq!(expect, out(&sample.from_owned_tokens(&"s".to_string())));
}

#[test]
fn array_literal_default_stands_as_written() {
    let sample = field("/// sbc: default = [1, 2, 3]\npub b10: [u8; 3]");
    assert_eq!(norm("b10: [1, 2, 3]"), out(&sample.assignment_tokens()));
}

#[test]
fn unsupported_type_is_refused() {
    let t = lex("(u8, u8)").unwrap();
    let e = FieldType::parse(&t, 0).err().unwrap();
    assert_eq!(e.kind, serde_bindgen_core::error::ErrorKind::UnsupportedType);
    assert_eq!(e.pos, 0);
}

#[test]
fn only_str_references_are_supported() {
    let t = lex("&'a u8").unwrap();
    let e = FieldType::parse(&t, 0).err().unwrap();
    assert_eq!(e.kind, serde_bindgen_core::error::ErrorKind::UnsupportedType);
    assert_eq!(e.pos, 3);
}

#[test]
fn malformed_marked_line_passes_through() {
    let f = field("/// sbc: = 3\nid: u8");
    assert!(f.attributes.0[0].ignore().is_some());
    assert_eq!(norm("/// sbc: = 3\nid: u8"), out(&f.to_tokens()));
    let g = field("/// (unbalanced\nid: u8");
    assert!(g.attributes.0[0].ignore().is_some());
}

#[test]
fn first_len_line_wins() {
    let f = field("/// sbc: len = 5\n/// sbc: len = 9\nid: &'a str");
    assert_eq!(f.attributes.seek_len(), 5);
    let g = field("id: &'a str");
    assert_eq!(g.attributes.seek_len(), 0);
}
