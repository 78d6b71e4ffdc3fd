use serde_bindgen_core::copy::text_of;
use serde_bindgen_core::demo::{Bar, BarOwned, Foo, FooOwned};
use serde_bindgen_core::expand::binding;
use serde_bindgen_core::lex::{lex, render};

fn squeeze(s: &str) -> String {
    s.chars().filter(|c| !c.is_whitespace()).collect()
}

#[test]
fn example_records_start_from_their_defaults() {
    let f = FooOwned::default();
    assert_eq!(f.id0, 12);
    assert_eq!(f.id1.id0, [b'h', b'i', 0]);
    for b in f.id2.iter() {
        assert_eq!(b.id0, [b'h', b'i', 0]);
    }
    assert_eq!(f.id3, [3, 3, 3]);
    assert_eq!(text_of(&f.id4), "hello");
    assert_eq!(BarOwned::default().id0, [b'h', b'i', 0]);
}

#[test]
fn example_records_copy_into_owned_shape() {
    let foo = Foo {
        id0: 7,
        id1: Bar { id0: "hi" },
        id2: [Bar { id0: "a" }, Bar { id0: "bcd" }, Bar { id0: "" }],
        id3: [1, 2, 3],
        id4: "hello world, and more",
    };
    let o = FooOwned::from_wire(&foo);
    assert_eq!(o.id0, 7);
    assert_eq!(o.id1.id0, [b'h', b'i', 0]);
    assert_eq!(o.id2[0].id0, [b'a', 0, 0]);
    assert_eq!(o.id2[1].id0, [b'b', b'c', 0]);
    assert_eq!(o.id2[2].id0, [0, 0, 0]);
    assert_eq!(o.id3, [1, 2, 3]);
    assert_eq!(text_of(&o.id4), "hello world");
}

#[test]
fn generator_derives_the_example_owned_records() {
    let bar = binding(
        &lex("").unwrap(),
        &lex("pub struct Bar<'a> { /// sbc: default = \"hi\"\n /// sbc: len = 3\n id0: &'a str, }").unwrap(),
    )
    .unwrap();
    assert_eq!(squeeze(&render(&bar.owned)), squeeze("#[repr(C)] pub struct BarOwned { id0: [u8; 3], }"));
    let foo = binding(
        &lex("prefix = \"foo\"").unwrap(),
        &lex(
            "pub struct Foo<'a> { /// sbc: default = 12\n id0: u8, id1: Bar<'a>, id2: [Bar<'a>; 3], /// sbc: default = 3\n id3: [u32; 3], /// sbc: default = \"hello\"\n /// sbc: len = 12\n id4: &'a str, }",
        )
        .unwrap(),
    )
    .unwrap();
    assert_eq!(
        squeeze(&render(&foo.owned)),
        squeeze("#[repr(C)] pub struct FooOwned { id0: u8, id1: BarOwned, id2: [BarOwned; 3], id3: [u32; 3], id4: [u8; 12], }")
    );
    assert_eq!(foo.bindings.init, "foo_init_foo");
}
