//! Source positions and parse errors.

use vstd::prelude::*;

verus! {

/// A position in the input text: a line (starting at 1) and a column.
///
/// The column of a byte is 1-based within its line; consuming a line
/// terminator moves to `(line + 1, 0)`, consuming any other byte moves to
/// `(line, column + 1)`. The sentinel position `(0, 0)` is used only by the
/// parser's initial "no token consumed yet" state.
#[derive(Debug, Copy, Clone, PartialEq, Eq, Structural)]
pub struct Loc {
    pub line: u64,
    pub col: u64,
}

impl Loc {
    pub fn new(line: u64, col: u64) -> (r: Loc)
        ensures
            r == (Loc { line, col }),
    {
        Loc { line, col }
    }
}

/// The kind of a parse failure.
#[derive(Debug, Copy, Clone, PartialEq, Eq, Structural)]
pub enum ErrorKind {
    /// An alphanumeric run that is not one of the known keywords.
    UnknownKeyword,

    /// A byte that cannot start any token.
    InvalidTokenStart,

    /// The token stream ended where the grammar required another token.
    UnexpectedEndOfFile,

    /// A well-formed token that the grammar does not allow at its position.
    UnexpectedToken,

    /// Sentinel for a parser that has not consumed any token yet.
    EmptyTokenStream,

    /// A keyword other than `sat`, `sate`, `satx` or `satex` where a SAT
    /// problem kind was expected.
    InvalidSatExtension,

    /// A run of digits whose value does not fit in an unsigned 64-bit
    /// integer.
    NumberOverflow,

    /// Input continuing after the declared number of clauses was parsed.
    TooManyClauses,
}

/// A parse failure: the position at which it was detected and its kind.
#[derive(Debug, Copy, Clone, PartialEq, Eq, Structural)]
pub struct ParseError {
    pub loc: Loc,
    pub kind: ErrorKind,
}

impl ParseError {
    pub fn new(loc: Loc, kind: ErrorKind) -> (r: ParseError)
        ensures
            r == (ParseError { loc, kind }),
    {
        ParseError { loc, kind }
    }
}

} // verus!
