//! The records of the example program, with the owned shapes, defaults and
//! conversions that the generator derives for them, written out.
//!
//! ```text
//! pub struct Bar<'a> {
//!     /// sbc: default = "hi"
//!     /// sbc: len = 3
//!     id0: &'a str,
//! }
//! ```
use vstd::prelude::*;
use vstd::string::StringSliceAdditionalSpecFns;
use crate::copy::{SafeCopy, padded_text};

verus! {

pub struct Bar<'a> {
    pub id0: &'a str,
}

pub struct BarOwned {
    pub id0: [u8; 3],
}

/// `Foo`: a scalar with a default, a nested record, an array of records,
/// an array of scalars with a default, and bounded text with a default.
pub struct Foo<'a> {
    pub id0: u8,
    pub id1: Bar<'a>,
    pub id2: [Bar<'a>; 3],
    pub id3: [u32; 3],
    pub id4: &'a str,
}

pub struct FooOwned {
    pub id0: u8,
    pub id1: BarOwned,
    pub id2: [BarOwned; 3],
    pub id3: [u32; 3],
    pub id4: [u8; 12],
}

impl Default for BarOwned {
    fn default() -> (r: BarOwned)
        ensures
            r.id0@ == padded_text("hi"@.map_values(|c: char| c as u8), 3),
    {
        let hi = "hi";
        proof {
            reveal_strlit("hi");
            assert(hi.spec_bytes() =~= "hi"@.map_values(|c: char| c as u8)) by {
                vstd::string::is_ascii_spec_bytes(hi);
            }
        }
        BarOwned { id0: hi.safe_copy() }
    }
}

impl BarOwned {
    /// The owned copy of a wire value: its text cut to two bytes and a zero.
    pub fn from_wire(s: &Bar) -> (r: BarOwned)
        ensures
            r.id0@ == padded_text(s.id0.spec_bytes(), 3),
    {
        BarOwned { id0: s.id0.safe_copy() }
    }
}

impl Default for FooOwned {
    fn default() -> (r: FooOwned)
        ensures
            r.id0 == 12,
            r.id1.id0@ == padded_text("hi"@.map_values(|c: char| c as u8), 3),
            forall|i: int| 0 <= i < 3 ==> (#[trigger] r.id2@[i]).id0@ == padded_text("hi"@.map_values(|c: char| c as u8), 3),
            r.id3@ == seq![3u32, 3u32, 3u32],
            r.id4@ == padded_text("hello"@.map_values(|c: char| c as u8), 12),
    {
        let hello = "hello";
        proof {
            reveal_strlit("hello");
            assert(hello.spec_bytes() =~= "hello"@.map_values(|c: char| c as u8)) by {
                vstd::string::is_ascii_spec_bytes(hello);
            }
        }
        let r = FooOwned {
            id0: 12,
            id1: BarOwned::default(),
            id2: [BarOwned::default(), BarOwned::default(), BarOwned::default()],
            id3: [3, 3, 3],
            id4: hello.safe_copy(),
        };
        assert(r.id3@ =~= seq![3u32, 3u32, 3u32]);
        r
    }
}

impl FooOwned {
    /// The owned copy of a wire value, field by field and element by element.
    pub fn from_wire(s: &Foo) -> (r: FooOwned)
        ensures
            r.id0 == s.id0,
            r.id1.id0@ == padded_text(s.id1.id0.spec_bytes(), 3),
            forall|i: int| 0 <= i < 3 ==> (#[trigger] r.id2@[i]).id0@ == padded_text(s.id2@[i].id0.spec_bytes(), 3),
            r.id3@ == s.id3@,
            r.id4@ == padded_text(s.id4.spec_bytes(), 12),
    {
        let r = FooOwned {
            id0: s.id0,
            id1: BarOwned::from_wire(&s.id1),
            id2: [BarOwned::from_wire(&s.id2[0]), BarOwned::from_wire(&s.id2[1]), BarOwned::from_wire(&s.id2[2])],
            id3: [s.id3[0], s.id3[1], s.id3[2]],
            id4: s.id4.safe_copy(),
        };
        assert(r.id3@ =~= s.id3@);
        r
    }
}

} // verus!
