use serde_bindgen_core::lex::{lex, render};
use serde_bindgen_core::path::PathNamed;

fn squeeze(s: &str) -> String {
    s.chars().filter(|c| !c.is_whitespace()).collect()
}

fn path(src: &str) -> PathNamed {
    let t = lex(src).unwrap();
    let (p, end) = PathNamed::parse(&t, 0).unwrap();
    assert_eq!(end, t.len());
    p
}

#[test]
fn can_parse_path_named_leading_colon() {
    let n = path("::foo::bar");
    assert!(n.leading_colon);
    assert_eq!(n.ident, "bar");
    assert_eq!(n.segments.len(), 1);
    assert!(n.generics.is_none());
}

#[test]
fn can_parse_path_named_single_ident() {
    let n = path("u16");
    assert!(!n.leading_colon);
    assert_eq!(n.ident, "u16");
    assert_eq!(n.segments.len(), 0);
    assert!(n.generics.is_none());
}

#[test]
fn can_parse_path_named_with_generics() {
    let n = path("hi<'a>");
    let expect = squeeze(&render(&lex("hi<'a>").unwrap()));
    let quoted = squeeze(&render(&n.to_tokens()));
    assert!(!n.leading_colon);
    assert_eq!(n.ident, "hi");
    assert_eq!(n.segments.len(), 0);
    assert!(n.generics.is_some());
    assert_eq!(expect, quoted);
}

#[test]
fn can_parse_path_named_segmented_with_generics() {
    let n = path("foo::bar::hi<'a>");
    assert!(!n.leading_colon);
    assert_eq!(n.ident, "hi");
    assert_eq!(n.segments.len(), 2);
    assert!(n.generics.is_some());
}

#[test]
fn can_to_tokens_path() {
    let sample = path("::foo::bar::Baz<'a>");
    let expect = squeeze(&render(&lex("::foo::bar::Baz<'a>").unwrap()));
    let quoted = squeeze(&render(&sample.to_tokens()));
    assert_eq!(expect, quoted);
}

#[test]
fn stackified_path_is_owned_without_generics() {
    let p = path("songs::RocketsShootBye<'a>").stackify();
    assert_eq!(squeeze(&render(&p.to_tokens())), "songs::RocketsShootByeOwned");
}

#[test]
fn size_constant_path_is_shouty() {
    let p = path("songs::RocketsShootBye<'a>").into_shouty_max_len();
    assert_eq!(squeeze(&render(&p.to_tokens())), "songs::ROCKETS_SHOOT_BYE_MAX_LEN");
}

#[test]
fn primitive_names_are_recognized() {
    for name in ["i8", "i16", "i32", "u8", "u16", "u32", "bool"] {
        assert!(path(name).is_primative());
    }
    assert!(!path("u64").is_primative());
    assert!(!path("Foo").is_primative());
}
