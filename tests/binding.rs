use serde_bindgen_core::copy::text_of;
use serde_bindgen_core::expand::{Expansion, binding};
use serde_bindgen_core::lex::{lex, render};
use serde_bindgen_core::SafeCopy;

fn squeeze(s: &str) -> String {
    s.chars().filter(|c| !c.is_whitespace()).collect()
}

fn norm(src: &str) -> String {
    squeeze(&render(&lex(src).unwrap()))
}

fn expand(attr: &str, item: &str) -> Expansion {
    binding(&lex(attr).unwrap(), &lex(item).unwrap()).unwrap()
}

/// The generated default of the named field.
fn init(e: &Expansion, name: &str) -> String {
    let f = e.record.fields.iter().find(|f| f.ident == name).unwrap();
    squeeze(&render(&f.assignment_tokens()))
}

/// The generated conversion of the named field to the owned shape.
fn copy(e: &Expansion, name: &str) -> String {
    let f = e.record.fields.iter().find(|f| f.ident == name).unwrap();
    squeeze(&render(&f.from_tokens(&"s".to_string())))
}

/// The owned type of the named field.
fn owned_ty(e: &Expansion, name: &str) -> String {
    let f = e.owned_record.fields.iter().find(|f| f.ident == name).unwrap();
    squeeze(&render(&f.ty.to_tokens()))
}

fn stringify(bytes: &[u8]) -> &str {
    std::str::from_utf8(bytes).unwrap().trim_end_matches('\0')
}

const ROCKETS: &str = r#"
    #[derive(Debug, PartialEq, Clone)]
    pub struct RocketsShootBye<'a> {
        /// sbc: default = "rockets"
        /// sbc: len = 33
        pub b0: &'a str,
        /// sbc: default = 30
        pub b1: u8,
        /// sbc: default = 3
        pub b2: [i32; 3],
        /// sbc: default = false
        pub b3: [bool; 4],
    }
"#;

const DECK: &str = r#"
#[derive(Debug, PartialEq, Clone)]
pub struct DeckTheHalls<'a> {
    /// sbc: default = "deck"
    /// sbc: len = 33
    pub b0: &'a str,
    /// sbc: default = 20
    pub b1: u8,
    /// sbc: default = 2
    pub b2: [i32; 3],
    pub b3: [bool; 4],
}
"#;

const JINGLE: &str = r#"
#[derive(Debug, PartialEq, Clone)]
pub struct JingleBells<'a> {
    /// sbc: default = "jingle"
    /// sbc: len = 33
    pub b0: &'a str,
    /// sbc: default = 10
    pub b1: u8,
    pub b2: [i32; 3],
    pub b3: [bool; 4],
    pub b4: DeckTheHalls<'a>,
    pub b5: [DeckTheHalls<'a>; 3],
    pub b6: songs::RocketsShootBye<'a>,
    pub b7: [songs::RocketsShootBye<'a>; 3],
    /// sbc: default = "jingle"
    /// sbc: len = 8
    pub b8: [&'a str; 3],
    /// sbc: default = "jingle"
    /// sbc: len = 8
    pub b9: [[&'a str; 3]; 2],
    /// sbc: default = [1, 2, 3]
    pub b10: [u8; 3],
    /// uninitialized test
    pub b11: &'a str,
}
"#;

#[test]
fn can_init() {
    let f = expand("prefix = \"test\"", JINGLE);
    let deck = expand("", DECK);
    let rockets = expand("", ROCKETS);
    assert_eq!(f.bindings.init, "test_init_jingle_bells");

    // Text fields are copied from their defaults into 33- and 8-byte buffers.
    assert_eq!(owned_ty(&f, "b0"), "[u8;33]");
    assert_eq!(init(&f, "b0"), norm("b0: serde_bindgen_core::SafeCopy::safe_copy(&\"jingle\")"));
    let b0: [u8; 33] = "jingle".safe_copy();
    assert_eq!(stringify(&b0), "jingle");
    assert_eq!(init(&f, "b4"), norm("b4: Default::default()"));
    assert_eq!(init(&f, "b5"), norm("b5: [Default::default(), Default::default(), Default::default()]"));
    assert_eq!(init(&deck, "b0"), norm("b0: serde_bindgen_core::SafeCopy::safe_copy(&\"deck\")"));
    let deck_b0: [u8; 33] = "deck".safe_copy();
    assert_eq!(stringify(&deck_b0), "deck");
    assert_eq!(init(&f, "b6"), norm("b6: Default::default()"));
    assert_eq!(init(&f, "b7"), norm("b7: [Default::default(), Default::default(), Default::default()]"));
    assert_eq!(init(&rockets, "b0"), norm("b0: serde_bindgen_core::SafeCopy::safe_copy(&\"rockets\")"));
    let rockets_b0: [u8; 33] = "rockets".safe_copy();
    assert_eq!(stringify(&rockets_b0), "rockets");
    let j = "serde_bindgen_core::SafeCopy::safe_copy(&\"jingle\")";
    assert_eq!(owned_ty(&f, "b8"), "[[u8;8];3]");
    assert_eq!(init(&f, "b8"), norm(&format!("b8: [{j}, {j}, {j}]")));
    assert_eq!(owned_ty(&f, "b9"), "[[[u8;8];3];2]");
    assert_eq!(init(&f, "b9"), norm(&format!("b9: [[{j}, {j}, {j}], [{j}, {j}, {j}]]")));
    let b8: [u8; 8] = "jingle".safe_copy();
    assert_eq!(stringify(&b8), "jingle");

    assert_eq!(init(&f, "b1"), norm("b1: 10"));
    assert_eq!(init(&deck, "b1"), norm("b1: 20"));
    assert_eq!(init(&rockets, "b1"), norm("b1: 30"));
    assert_eq!(init(&f, "b10"), norm("b10: [1, 2, 3]"));
    assert_eq!(owned_ty(&f, "b11"), "[u8;0]");
    assert_eq!(init(&f, "b11"), norm("b11: serde_bindgen_core::SafeCopy::safe_copy(&\"\")"));
    let b11: [u8; 0] = "".safe_copy();
    assert_eq!(b11, []);
}

#[test]
fn can_copy_into_owned() {
    let f = expand("prefix = \"test\"", JINGLE);
    let deck = expand("", DECK);
    let rockets = expand("", ROCKETS);
    assert_eq!(f.bindings.copy, "test_copy_jingle_bells");
    let sc = |e: &str| format!("serde_bindgen_core::SafeCopy::safe_copy(&{e})");

    assert_eq!(copy(&f, "b0"), norm(&format!("b0: {}", sc("s.b0"))));
    assert_eq!(copy(&f, "b1"), norm("b1: s.b1"));
    assert_eq!(copy(&f, "b2"), norm("b2: [s.b2[0], s.b2[1], s.b2[2]]"));
    assert_eq!(copy(&f, "b3"), norm("b3: [s.b3[0], s.b3[1], s.b3[2], s.b3[3]]"));
    assert_eq!(copy(&f, "b4"), norm("b4: From::from(&s.b4)"));
    assert_eq!(copy(&f, "b5"), norm("b5: [From::from(&s.b5[0]), From::from(&s.b5[1]), From::from(&s.b5[2])]"));
    assert_eq!(copy(&f, "b6"), norm("b6: From::from(&s.b6)"));
    assert_eq!(copy(&f, "b7"), norm("b7: [From::from(&s.b7[0]), From::from(&s.b7[1]), From::from(&s.b7[2])]"));
    assert_eq!(copy(&deck, "b0"), norm(&format!("b0: {}", sc("s.b0"))));
    assert_eq!(copy(&rockets, "b0"), norm(&format!("b0: {}", sc("s.b0"))));
    assert_eq!(
        copy(&f, "b8"),
        norm(&format!("b8: [{}, {}, {}]", sc("s.b8[0]"), sc("s.b8[1]"), sc("s.b8[2]")))
    );
    assert_eq!(
        copy(&f, "b9"),
        norm(&format!(
            "b9: [[{}, {}, {}], [{}, {}, {}]]",
            sc("s.b9[0][0]"),
            sc("s.b9[0][1]"),
            sc("s.b9[0][2]"),
            sc("s.b9[1][0]"),
            sc("s.b9[1][1]"),
            sc("s.b9[1][2]")
        ))
    );
    assert_eq!(copy(&f, "b10"), norm("b10: [s.b10[0], s.b10[1], s.b10[2]]"));
    assert_eq!(copy(&f, "b11"), norm(&format!("b11: {}", sc("s.b11"))));

    // What those copies hold for the sample record's values.
    for text in ["b0", "b4.b0", "b5[0].b0", "b5[1].b0", "b5[2].b0", "b6.b0", "b7[0].b0", "b7[1].b0", "b7[2].b0"] {
        let owned: [u8; 33] = text.safe_copy();
        assert_eq!(stringify(&owned), text);
        assert_eq!(text_of(&owned), text);
    }
    for text in ["apple", "banana", "car"] {
        let owned: [u8; 8] = text.safe_copy();
        assert_eq!(stringify(&owned), text);
    }
    let b11: [u8; 0] = "apple".safe_copy();
    assert_eq!(b11, []);
}

#[test]
fn can_reference_owned() {
    //let mut owned = std::mem::
}

#[test]
fn entry_point_names_follow_prefix_and_snake_case() {
    let f = expand("prefix = \"foo\"", "pub struct Foo<'a> { item: &'a str, }");
    assert_eq!(f.bindings.init, "foo_init_foo");
    assert_eq!(f.bindings.copy, "foo_copy_foo");
    assert_eq!(f.bindings.parse, "foo_parse_foo");
    assert_eq!(f.bindings.print, "foo_print_foo");
    assert_eq!(f.bindings.print_owned, "foo_print_foo_owned");
    let g = expand("", "pub struct JingleBells { item: u8 }");
    assert_eq!(g.bindings.init, "sbc_init_jingle_bells");
}

#[test]
fn concrete_scenario_two_fields() {
    let e = expand("", "pub struct Bar<'a> { id0: u8, /// sbc: len = 3\n id1: &'a str, }");
    assert_eq!(init(&e, "id0"), norm("id0: 0"));
    assert_eq!(init(&e, "id1"), norm("id1: serde_bindgen_core::SafeCopy::safe_copy(&\"\")"));
    assert_eq!(owned_ty(&e, "id1"), "[u8;3]");
    let empty: [u8; 3] = "".safe_copy();
    assert_eq!(empty, [0, 0, 0]);
    assert_eq!(copy(&e, "id1"), norm("id1: serde_bindgen_core::SafeCopy::safe_copy(&s.id1)"));
    let copied: [u8; 3] = "hi".safe_copy();
    assert_eq!(copied, [b'h', b'i', 0]);
}

#[test]
fn generated_items_render() {
    let e = expand("prefix = \"test\", rename_all = \"camelCase\"", "pub struct Foo { this_is_a_thing: u8 }");
    assert_eq!(
        squeeze(&render(&e.wire)),
        norm(
            "#[repr(C)] #[derive(serde::Deserialize)] #[derive(serde::Serialize)] #[serde(crate = \"self::serde\")] #[serde(rename_all = \"camelCase\")] pub struct Foo { this_is_a_thing: u8, }"
        )
    );
    assert_eq!(squeeze(&render(&e.owned)), norm("#[repr(C)] pub struct FooOwned { this_is_a_thing: u8, }"));
    assert_eq!(squeeze(&render(&e.alias)), norm("pub type FooBorrowed = Foo;"));
    assert_eq!(squeeze(&render(&e.size_const)), norm("pub const FOO_MAX_LEN: usize = 23;"));
    assert_eq!(e.prefix, "test");
}

#[test]
fn bad_prefix_is_refused() {
    let r = binding(&lex("prefix = 3").unwrap(), &lex("struct Foo { a: u8 }").unwrap());
    assert!(r.is_err());
}
