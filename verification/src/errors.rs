//! Typed failures surfaced to the lexer's caller.

use vstd::prelude::*;

verus! {

/// The mathematical content of a [`LexError`].
pub ghost enum LexErrorV {
    /// No registered matcher accepted the character at this offset.
    UnrecognizedInput(int),
    /// An unsupported escape code followed a backslash inside a
    /// double-quoted string.
    InvalidEscapeSequence(char),
    /// A digit run whose value does not fit an unsigned 64-bit integer.
    NumericOverflow(Seq<char>),
}

/// A failure met while lexing, reported at the point of occurrence and
/// terminating the current token stream.
#[derive(Clone, Debug, PartialEq, Eq)]
pub enum LexError {
    /// No registered matcher accepted the character at the given offset.
    UnrecognizedInput(usize),
    /// An unsupported escape code, carried here, followed a backslash
    /// inside a double-quoted string.
    InvalidEscapeSequence(char),
    /// A digit run, carried here, whose value does not fit an unsigned
    /// 64-bit integer.
    NumericOverflow(String),
}

impl View for LexError {
    type V = LexErrorV;

    open spec fn view(&self) -> LexErrorV {
        match self {
            LexError::UnrecognizedInput(p) => LexErrorV::UnrecognizedInput(*p as int),
            LexError::InvalidEscapeSequence(c) => LexErrorV::InvalidEscapeSequence(*c),
            LexError::NumericOverflow(s) => LexErrorV::NumericOverflow(s@),
        }
    }
}

} // verus!
