//! Derivation engine for fixed-capacity bindings of wire records.
//!
//! A record declaration is read from a flat token sequence, each field is
//! classified into a closed set of shapes, and from that description the
//! library derives the self-contained ("owned") shape, worst-case encoded
//! sizes, default values, conversions and the names of the flat C-callable
//! entry points.
//!
//! - `token`, `lex`, `literal`: tokens, lexing, literal values
//! - `attributes`: the documentation lines above a field
//! - `path`, `field`, `record`: declarations, owned shapes, sizes
//! - `generate`, `items`, `expand`: the generated items
//! - `copy`: the run-time copies between text and fixed buffers
//! - `laws`, `size`: properties across functions
//! - `demo`: the example program's records, written out
use vstd::prelude::*;

pub use copy::SafeCopy;

pub mod attributes;
pub mod copy;
pub mod demo;
pub mod error;
pub mod expand;
pub mod field;
pub mod generate;
pub mod items;
pub mod laws;
pub mod lex;
pub mod literal;
pub mod path;
pub mod record;
pub mod size;
pub mod token;

verus! {

} // verus!
