use serde_bindgen_core::copy::{safe_copy, text_of};
use serde_bindgen_core::error::ErrorKind;
use serde_bindgen_core::expand::binding;
use serde_bindgen_core::lex::{lex, render};
use serde_bindgen_core::record::Context;
use serde_bindgen_core::SafeCopy;

fn squeeze(s: &str) -> String {
    s.chars().filter(|c| !c.is_whitespace()).collect()
}

#[test]
fn short_text_round_trips_through_buffer() {
    let owned: [u8; 8] = "apple".safe_copy();
    assert_eq!(text_of(&owned), "apple");
}

#[test]
fn long_text_comes_back_as_prefix() {
    let owned: [u8; 4] = "hello".safe_copy();
    assert_eq!(owned, [b'h', b'e', b'l', 0]);
    assert_eq!(text_of(&owned), "hel");
}

#[test]
fn text_cut_inside_a_character_reads_as_empty() {
    let owned: [u8; 3] = "h\u{e9}llo".safe_copy();
    assert_eq!(owned, [b'h', 0xc3, 0]);
    assert_eq!(text_of(&owned), "");
}

#[test]
fn copy_never_writes_past_capacity() {
    let long = [7u8; 20];
    let owned: [u8; 5] = safe_copy(&long, 0);
    assert_eq!(owned, [7, 7, 7, 7, 7]);
    let short = [9u8; 2];
    let padded: [u8; 5] = safe_copy(&short, 0);
    assert_eq!(padded, [9, 9, 0, 0, 0]);
    let empty: [u8; 0] = safe_copy(&long, 0);
    assert_eq!(empty, []);
}

#[test]
fn two_level_arrays_and_nested_records_stackify() {
    let c = Context::parse(
        &lex("struct Foo<'a> { /// sbc: len = 4\n a: [[&'a str; 2]; 3], b: [[Bar<'a>; 2]; 2], c: [[u8; 2]; 2] }")
            .unwrap(),
    )
    .unwrap();
    assert_eq!(
        squeeze(&render(&c.into_owned().to_tokens())),
        squeeze("struct FooOwned { a: [[[u8; 4]; 2]; 3], b: [[BarOwned; 2]; 2], c: [[u8; 2]; 2], }")
    );
    let conv = squeeze(&render(&c.impl_from_ref()));
    assert!(conv.contains(&squeeze(
        "b: [[From::from(&s.b[0][0]), From::from(&s.b[0][1])], [From::from(&s.b[1][0]), From::from(&s.b[1][1])]]"
    )));
    assert!(conv.contains(&squeeze("c: [[s.c[0][0], s.c[0][1]], [s.c[1][0], s.c[1][1]]]")));
}

#[test]
fn recognized_lines_are_dropped_others_kept_in_order() {
    let c = Context::parse(&lex("struct Foo { /// sbc: default = 3\n /// keep me\n a: u8, }").unwrap()).unwrap();
    assert_eq!(squeeze(&render(&c.to_tokens())), squeeze(&render(&lex("struct Foo { /// keep me\n a: u8, }").unwrap())));
    let d = Context::parse(&lex("struct Foo { /// keep me\n /// sbc: default = 3\n a: u8, }").unwrap()).unwrap();
    assert_eq!(squeeze(&render(&d.to_tokens())), squeeze(&render(&lex("struct Foo { /// keep me\n a: u8, }").unwrap())));
}

#[test]
fn duplicate_field_names_are_refused() {
    let t = lex("struct Foo { a: u8, a: u16 }").unwrap();
    let e = Context::parse(&t).err().unwrap();
    assert_eq!(e.kind, serde_bindgen_core::error::ErrorKind::Syntax);
    assert_eq!(e.pos, 7);
}

#[test]
fn unbalanced_text_does_not_lex() {
    assert!(lex("struct Foo { a: u8").is_none());
}

#[test]
fn render_joins_lifetimes_and_paths() {
    let t = lex("::a::b<'x>").unwrap();
    assert_eq!(render(&t), ":: a :: b <'x >");
}

#[test]
fn c_string_literals_are_refused_without_panicking() {
    let count = binding(&lex("").unwrap(), &lex("struct Foo { a: [u8; c\"x\"] }").unwrap());
    let e = count.err().unwrap();
    assert_eq!(e.kind, ErrorKind::Syntax);
    assert_eq!(e.pos, 8);
    let prefix = binding(&lex("prefix = c\"x\"").unwrap(), &lex("struct Foo { a: u8 }").unwrap());
    assert!(prefix.is_err());
    let doc = Context::parse(&lex("struct Foo { #[doc = c\"x\"] a: u8, }").unwrap()).unwrap();
    assert!(doc.fields[0].attributes.0[0].ignore().is_some());
    let len = Context::parse(&lex("struct Foo { #[doc = \"sbc: len = c\\\"x\\\"\"] a: &'a str, }").unwrap()).unwrap();
    assert_eq!(len.fields[0].attributes.seek_len(), 0);
}

#[test]
fn unsupported_field_type_is_reported_at_its_token() {
    let e = binding(&lex("").unwrap(), &lex("pub struct Foo { a: u8, x: (u8, u8) }").unwrap()).err().unwrap();
    assert_eq!(e.kind, ErrorKind::UnsupportedType);
    assert_eq!(e.pos, 10);
    let f = binding(&lex("").unwrap(), &lex("pub struct Foo { x: &'a String }").unwrap()).err().unwrap();
    assert_eq!(f.kind, ErrorKind::UnsupportedType);
    assert_eq!(f.pos, 9);
    let g = binding(&lex("prefix").unwrap(), &lex("pub struct Foo { x: u8 }").unwrap()).err().unwrap();
    assert_eq!(g.kind, ErrorKind::Syntax);
    assert_eq!(g.pos, 0);
}
