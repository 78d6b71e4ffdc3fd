use serde_bindgen_core::field::{FieldType, Scalar};
use serde_bindgen_core::lex::{lex, render};
use serde_bindgen_core::record::{Context, Field};
use serde_bindgen_core::token::Tok;

fn squeeze(s: &str) -> String {
    s.chars().filter(|c| !c.is_whitespace()).collect()
}

fn norm(src: &str) -> String {
    squeeze(&render(&lex(src).unwrap()))
}

fn out(t: &Vec<Tok>) -> String {
    squeeze(&render(t))
}

fn record(src: &str) -> Context {
    Context::parse(&lex(src).unwrap()).unwrap()
}

#[test]
fn can_parse_struct() {
    let s = record(
        r#"
        pub struct Foo<'a> {
            pub id_0: i8,
            /// sbc: default = 3
            pub id_1: i16,
            pub id_2: i32,
            pub id_3: u8,
            pub id_4: u16,
            pub id_5: u32,
            pub id_6: bool,
            pub id_7: Foo<'a>,
            pub id_8: bar::Foo,
            pub id_9: ::Moo<'a>,
            /// garbage
            /// sbc: default = "hello world"
            /// more garbage
            /// sbc: len = 12
            /// ignore me
            pub id_10: &'a str,
            pub id_11: [bool; 6],
            pub id_12: [Foo; 5],
            pub id_13: [::bar::Foo<'a>; 8],
            // pub id_14: [&'a str; 3],
        }
        "#,
    );
    assert_eq!(s.path.ident, "Foo");
    assert!(s.is_pub);
    assert!(s.path.generics.is_some());

    let f: &Vec<Field> = &s.fields;
    assert!(matches!(&f[0].ty, FieldType::Primative(Scalar::I8)));
    assert!(matches!(&f[1].ty, FieldType::Primative(Scalar::I16)));
    assert!(matches!(&f[2].ty, FieldType::Primative(Scalar::I32)));
    assert!(matches!(&f[3].ty, FieldType::Primative(Scalar::U8)));
    assert!(matches!(&f[4].ty, FieldType::Primative(Scalar::U16)));
    assert!(matches!(&f[5].ty, FieldType::Primative(Scalar::U32)));
    assert!(matches!(&f[6].ty, FieldType::Primative(Scalar::Bool)));
    assert!(matches!(&f[7].ty, FieldType::Struct(p) if p.ident == "Foo" && p.generics.is_some()));
    assert!(matches!(&f[8].ty, FieldType::Struct(p) if p.ident == "Foo" && p.generics.is_none()));
    assert!(matches!(&f[9].ty, FieldType::Struct(p) if p.ident == "Moo" && p.generics.is_some()));
    assert!(matches!(&f[10].ty, FieldType::RefStr(..)));

    assert_eq!(f[0].ident, "id_0");
    assert_eq!(f[1].ident, "id_1");
    assert_eq!(f[2].ident, "id_2");
    assert_eq!(f[3].ident, "id_3");
    assert_eq!(f[4].ident, "id_4");
    assert_eq!(f[5].ident, "id_5");
    assert_eq!(f[6].ident, "id_6");
    assert_eq!(f[7].ident, "id_7");
    assert_eq!(f[8].ident, "id_8");
    assert_eq!(f[9].ident, "id_9");
    assert_eq!(f[10].ident, "id_10");
    assert_eq!(f[11].ident, "id_11");
    assert_eq!(f[12].ident, "id_12");
    assert_eq!(f[13].ident, "id_13");
}

#[test]
fn can_to_tokens_struct() {
    let s = record(
        r#"
        pub struct Foo<'a> {
            /// sbc: len = 22
            id_0: &'a str,
            id_1: Bar,
            id_2: ::Baz<'a>,
            id_3: [::Baz<'a>; 10],
        }
        "#,
    );
    let expect = norm(
        r#"
        pub struct Foo <'a> {
            id_0: &'a str,
            id_1: Bar,
            id_2: ::Baz<'a>,
            id_3: [::Baz<'a>; 10],
        }
        "#,
    );
    assert_eq!(expect, out(&s.to_tokens()));
}

#[test]
fn can_stackify() {
    let decl = record(
        r#"
        pub struct Foo<'a> {
            /// sbc: len = 22
            id_0: &'a str,
            id_1: Bar,
            id_2: ::Baz<'a>,
            id_3: [::Baz<'a>; 10],
            id_4: i32,
            id_5: u16,
        }
        "#,
    );
    let expect = norm(
        r#"
        pub struct FooOwned {
            id_0: [u8; 22],
            id_1: BarOwned,
            id_2: ::BazOwned,
            id_3: [::BazOwned; 10],
            id_4: i32,
            id_5: u16,
        }
        "#,
    );
    assert_eq!(expect, out(&decl.into_owned().to_tokens()));
}

#[test]
fn can_impl_default() {
    let decl = record(
        r#"
        pub struct Foo<'a> {
            /// sbc: default = "hello"
            /// sbc: len = 22
            id_0: &'a str,
            id_1: Bar,
            id_2: ::Baz<'a>,
            id_3: [::Baz<'a>; 2],
            /// sbc: default = 3
            id_4: i32,
            /// sbc: default = 6
            id_5: u16,
        }
        "#,
    );
    let expect = norm(
        r#"
        impl Default for FooOwned {
            fn default() -> FooOwned {
                FooOwned {
                    id_0: serde_bindgen_core::SafeCopy::safe_copy(&"hello"),
                    id_1: Default::default(),
                    id_2: Default::default(),
                    id_3: [Default::default(),Default::default()],
                    id_4: 3,
                    id_5: 6
                }
            }
        }
        "#,
    );
    assert_eq!(expect, out(&decl.impl_default()));
}

#[test]
fn can_impl_from() {
    let decl = record(
        r#"
        pub struct Foo<'a> {
            id0: &'a str,
            id1: [u8; 2],
            id2: Baz<'a>,
            id3: [Baz<'a>; 2],
        }
        "#,
    );
    let expect = norm(
        r#"
        impl<'a> From<&Foo<'a>> for FooOwned {
            fn from(s: &Foo<'a>) -> FooOwned {
                FooOwned {
                    id0: serde_bindgen_core::SafeCopy::safe_copy(&s.id0),
                    id1: [s.id1[0],s.id1[1]],
                    id2: From::from(&s.id2),
                    id3: [From::from(&s.id3[0]), From::from(&s.id3[1])]
                }
            }
        }
        "#,
    );
    assert_eq!(expect, out(&decl.impl_from_ref()));
}

#[test]
fn impl_from_owned_reads_fields_back() {
    let decl = record(
        r#"
        pub struct Foo<'a> {
            /// sbc: len = 4
            id0: &'a str,
            id1: u8,
            id2: Baz<'a>,
        }
        "#,
    );
    let expect = norm(
        r#"
        impl<'a> From<&'a FooOwned> for Foo<'a> {
            fn from(s: &'a FooOwned) -> Foo<'a> {
                Foo {
                    id0: serde_bindgen_core::copy::text_of(&s.id0),
                    id1: s.id1,
                    id2: From::from(&s.id2)
                }
            }
        }
        "#,
    );
    assert_eq!(expect, out(&decl.impl_from_owned()));
}

#[test]
fn record_weight_counts_keys_braces_and_commas() {
    let r = record("struct Remote<'a> { ///sbc: len = 4\n id0: &'a str, }");
    let (w, remotes) = r.weight().unwrap();
    assert_eq!(w, 14);
    assert!(remotes.is_empty());
    let empty = record("struct Empty {}");
    assert_eq!(empty.weight().unwrap().0, 2);
}

#[test]
fn nested_arrays_of_records_scale_remote_sizes() {
    let r = record("struct Foo { id0: [[Bar; 2]; 3], id1: Baz }");
    let (w, remotes) = r.weight().unwrap();
    assert_eq!(remotes.len(), 2);
    assert_eq!(remotes[0].0.ident, "Bar");
    assert_eq!(remotes[0].1, 6);
    assert_eq!(remotes[1].0.ident, "Baz");
    assert_eq!(remotes[1].1, 1);
    // {"id0":[[,],[,],[,]],"id1":} around the remote sizes
    assert_eq!(w, 2 + 6 + (3 * (0 + 1 + 2) + 2 + 2) + 1 + 6);
}

#[test]
fn missing_brace_is_a_syntax_error_at_its_token() {
    let t = lex("pub struct Foo id: u8").unwrap();
    let e = Context::parse(&t).err().unwrap();
    assert_eq!(e.kind, serde_bindgen_core::error::ErrorKind::Syntax);
    assert_eq!(e.pos, 3);
}
