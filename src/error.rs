//! Failures while reading a declaration.
use vstd::prelude::*;

verus! {

/// Why a declaration could not be read.
#[derive(Clone, Copy, PartialEq, Eq, Debug, Structural)]
pub enum ErrorKind {
    /// The tokens do not follow the declaration grammar.
    Syntax,
    /// A field's type is outside the supported shapes.
    UnsupportedType,
    /// A record's worst-case size does not fit in a `u64`.
    SizeOverflow,
}

/// A failure, with the index of the offending token.
#[derive(Clone, Copy, PartialEq, Eq, Debug, Structural)]
pub struct ParseError {
    pub kind: ErrorKind,
    pub pos: usize,
}

impl ParseError {
    pub fn syntax(pos: usize) -> (r: ParseError)
        ensures
            r == (ParseError { kind: ErrorKind::Syntax, pos }),
    {
        ParseError { kind: ErrorKind::Syntax, pos }
    }

    /// A one-line description, for diagnostics.
    pub fn message(&self) -> (r: &'static str) {
        match self.kind {
            ErrorKind::Syntax => "unexpected token",
            ErrorKind::UnsupportedType => "Unsupported field type",
            ErrorKind::SizeOverflow => "worst-case size does not fit in a u64",
        }
    }
}

} // verus!
