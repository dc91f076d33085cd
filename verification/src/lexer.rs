//! The lexer: turns a byte stream into a sequence of position-tagged tokens.
//!
//! The specification side models the whole scan as functions over the input
//! byte sequence: `loc_after` tracks line/column positions, `raw_step` gives
//! the next raw token (or lexical error) together with the index it leaves
//! the scanner at, `raw_toks` is the full raw token sequence and `toks_from`
//! the comment-filtered sequence the parser consumes. The executable `Lexer`
//! and `ValidLexer` are proved to produce exactly these sequences.

use vstd::prelude::*;
use vstd::seq_lib::group_seq_properties;
use crate::errors::ErrorKind;
use crate::errors::Loc;
use crate::errors::ParseError;

verus! {

/// One token: the position of its first byte and its kind.
#[derive(Debug, Copy, Clone, PartialEq, Eq, Structural)]
pub struct Token {
    pub loc: Loc,
    pub kind: TokenKind,
}

impl Token {
    pub fn new(loc: Loc, kind: TokenKind) -> (r: Token)
        ensures
            r == (Token { loc, kind }),
    {
        Token { loc, kind }
    }
}

/// The kind of a token.
#[derive(Debug, Copy, Clone, PartialEq, Eq, Structural)]
pub enum TokenKind {
    /// An entire `c ...` comment line, content discarded.
    Comment,

    /// A positive number: a run of digits starting with `1`–`9`.
    Nat(u64),

    /// The single digit `0`, which terminates clauses; numbers other than
    /// zero never start with a `0` digit.
    Zero,

    /// A `+` symbol, interpreted as logical or.
    Plus,

    /// A `-` symbol, interpreted as negation of a literal or formula.
    Minus,

    /// A `*` symbol, interpreted as logical and.
    Star,

    /// A `=` symbol, interpreted as logical equivalence.
    Eq,

    /// An opening parenthesis `(`.
    Open,

    /// A closing parenthesis `)`.
    Close,

    /// A known keyword, e.g. `cnf`, `sat`, `sate`, `satex`.
    Ident(Ident),

    /// The end of the input.
    EndOfFile,
}

impl TokenKind {
    /// Whether a token of this kind is grammatically meaningful: everything
    /// but a comment is.
    pub fn is_relevant(self) -> (r: bool)
        ensures
            r == !(self is Comment),
    {
        match self {
            TokenKind::Comment => false,
            _ => true,
        }
    }
}

/// A keyword.
#[derive(Debug, Copy, Clone, PartialEq, Eq, Structural)]
pub enum Ident {
    /// The `p` keyword opening a problem line.
    Problem,

    /// The `xor` operator, available with the Xor extension.
    Xor,

    /// The `cnf` problem kind.
    Cnf,

    /// The `sat` problem kind (no extensions).
    Sat,

    /// The `satx` problem kind (Xor extension).
    Satx,

    /// The `sate` problem kind (Eq extension).
    Sate,

    /// The `satex` problem kind (Eq and Xor extensions).
    Satex,
}

/// One item of the lexer's output: a token or a lexical error.
pub type LexItem = Result<Token, ParseError>;

// ---------------------------------------------------------------------------
// The specification model of the scan.
// ---------------------------------------------------------------------------

/// ASCII whitespace: space, tab, line feed, form feed, carriage return.
pub open spec fn is_ws(b: u8) -> bool {
    b == 32 || b == 9 || b == 10 || b == 12 || b == 13
}

/// ASCII decimal digit.
pub open spec fn is_digit(b: u8) -> bool {
    48 <= b <= 57
}

/// ASCII letter.
pub open spec fn is_alpha(b: u8) -> bool {
    (65 <= b <= 90) || (97 <= b <= 122)
}

/// ASCII letter or digit.
pub open spec fn is_alnum(b: u8) -> bool {
    is_digit(b) || is_alpha(b)
}

/// One of the six operator bytes `( ) + - * =`.
pub open spec fn is_op(b: u8) -> bool {
    b == 40 || b == 41 || b == 43 || b == 45 || b == 42 || b == 61
}

/// The position after consuming the first `n` bytes of the input: positions
/// start at line 1, column 0; a line feed moves to the next line's column 0,
/// any other byte advances the column.
pub open spec fn loc_after(input: Seq<u8>, n: int) -> Loc
    decreases n,
{
    if n <= 0 {
        Loc { line: 1, col: 0 }
    } else {
        let p = loc_after(input, n - 1);
        if input[n - 1] == 10 {
            Loc { line: (p.line + 1) as u64, col: 0 }
        } else {
            Loc { line: p.line, col: (p.col + 1) as u64 }
        }
    }
}

/// The position of the byte at index `i`: the position reached once it is
/// consumed.
pub open spec fn loc_at(input: Seq<u8>, i: int) -> Loc {
    loc_after(input, i + 1)
}

/// The line is at least 1 and line plus column never exceed the number of
/// consumed bytes plus one, so both fit any index-sized integer.
pub proof fn lemma_loc_bounds(input: Seq<u8>, n: int)
    requires
        n < usize::MAX,
    ensures
        1 <= loc_after(input, n).line,
        loc_after(input, n).line + loc_after(input, n).col <= if n <= 0 { 1int } else { n + 1 },
    decreases n,
{
    if n > 0 {
        lemma_loc_bounds(input, n - 1);
    }
}

/// The first index at or after `i` holding a non-whitespace byte (or the end
/// of the input).
pub open spec fn ws_end(input: Seq<u8>, i: int) -> int
    decreases input.len() - i when 0 <= i <= input.len()
{
    if i == input.len() {
        i
    } else if is_ws(input[i]) {
        ws_end(input, i + 1)
    } else {
        i
    }
}

/// The end of the run of letters and digits starting at `i`.
pub open spec fn alnum_end(input: Seq<u8>, i: int) -> int
    decreases input.len() - i when 0 <= i <= input.len()
{
    if i == input.len() {
        i
    } else if is_alnum(input[i]) {
        alnum_end(input, i + 1)
    } else {
        i
    }
}

/// The end of the run of digits starting at `i`.
pub open spec fn digits_end(input: Seq<u8>, i: int) -> int
    decreases input.len() - i when 0 <= i <= input.len()
{
    if i == input.len() {
        i
    } else if is_digit(input[i]) {
        digits_end(input, i + 1)
    } else {
        i
    }
}

/// The index of the next line feed at or after `i` (or the end of the
/// input). A comment runs up to but not including this index.
pub open spec fn line_end(input: Seq<u8>, i: int) -> int
    decreases input.len() - i when 0 <= i <= input.len()
{
    if i == input.len() {
        i
    } else if input[i] == 10 {
        i
    } else {
        line_end(input, i + 1)
    }
}

/// Bounds shared by all four scans: the result lies between `i` and the end
/// of the input.
pub proof fn lemma_scan_bounds(input: Seq<u8>, i: int)
    requires
        0 <= i <= input.len(),
    ensures
        i <= ws_end(input, i) <= input.len(),
        i <= alnum_end(input, i) <= input.len(),
        i <= digits_end(input, i) <= input.len(),
        i <= line_end(input, i) <= input.len(),
        ws_end(input, i) < input.len() ==> !is_ws(input[ws_end(input, i)]),
        alnum_end(input, i) < input.len() ==> !is_alnum(input[alnum_end(input, i)]),
        digits_end(input, i) < input.len() ==> !is_digit(input[digits_end(input, i)]),
        line_end(input, i) < input.len() ==> input[line_end(input, i)] == 10,
    decreases input.len() - i,
{
    if i < input.len() {
        lemma_scan_bounds(input, i + 1);
    }
}

/// The value of the decimal digit run `input[s..e)`, accumulated left to
/// right.
pub open spec fn nat_val(input: Seq<u8>, s: int, e: int) -> int
    decreases e - s,
{
    if e <= s {
        0
    } else {
        nat_val(input, s, e - 1) * 10 + (input[e - 1] - 48)
    }
}

/// A digit run is non-negative, and at least 1 when its first digit is not
/// `0`.
pub proof fn lemma_nat_val_bounds(input: Seq<u8>, s: int, e: int)
    requires
        forall|j: int| s <= j < e ==> is_digit(#[trigger] input[j]),
    ensures
        0 <= nat_val(input, s, e),
        s < e && input[s] != 48 ==> 1 <= nat_val(input, s, e),
    decreases e - s,
{
    if e > s {
        lemma_nat_val_bounds(input, s, e - 1);
    }
}

/// The keyword named by the letter-digit run `input[s..e)`, if any. The
/// spellings are exactly `p`, `cnf`, `sat`, `satx`, `sate`, `satex` and
/// `xor`; the run `c` is handled separately as a comment opener.
pub open spec fn kw_of(input: Seq<u8>, s: int, e: int) -> Option<Ident> {
    let n = e - s;
    if n == 1 && input[s] == 112 {
        Some(Ident::Problem)
    } else if n == 3 && input[s] == 99 && input[s + 1] == 110 && input[s + 2] == 102 {
        Some(Ident::Cnf)
    } else if n == 3 && input[s] == 120 && input[s + 1] == 111 && input[s + 2] == 114 {
        Some(Ident::Xor)
    } else if 3 <= n <= 5 && input[s] == 115 && input[s + 1] == 97 && input[s + 2] == 116 {
        if n == 3 {
            Some(Ident::Sat)
        } else if n == 4 && input[s + 3] == 120 {
            Some(Ident::Satx)
        } else if n == 4 && input[s + 3] == 101 {
            Some(Ident::Sate)
        } else if n == 5 && input[s + 3] == 101 && input[s + 4] == 120 {
            Some(Ident::Satex)
        } else {
            None
        }
    } else {
        None
    }
}

/// The token or error starting at the non-whitespace byte at `s`, together
/// with the index scanning leaves off at.
pub open spec fn scan_at(input: Seq<u8>, s: int) -> (LexItem, int)
    recommends
        0 <= s < input.len(),
        !is_ws(input[s]),
{
    let b = input[s];
    let loc = loc_at(input, s);
    if is_alpha(b) {
        let e = alnum_end(input, s);
        if e - s == 1 && b == 99 {
            (Ok(Token { loc, kind: TokenKind::Comment }), line_end(input, e))
        } else {
            match kw_of(input, s, e) {
                Some(id) => (Ok(Token { loc, kind: TokenKind::Ident(id) }), e),
                None => (Err(ParseError { loc, kind: ErrorKind::UnknownKeyword }), e),
            }
        }
    } else if b == 48 {
        (Ok(Token { loc, kind: TokenKind::Zero }), s + 1)
    } else if is_digit(b) {
        let e = digits_end(input, s);
        let v = nat_val(input, s, e);
        if v < 0x1_0000_0000_0000_0000 {
            (Ok(Token { loc, kind: TokenKind::Nat(v as u64) }), e)
        } else {
            (Err(ParseError { loc, kind: ErrorKind::NumberOverflow }), e)
        }
    } else if b == 40 {
        (Ok(Token { loc, kind: TokenKind::Open }), s + 1)
    } else if b == 41 {
        (Ok(Token { loc, kind: TokenKind::Close }), s + 1)
    } else if b == 43 {
        (Ok(Token { loc, kind: TokenKind::Plus }), s + 1)
    } else if b == 45 {
        (Ok(Token { loc, kind: TokenKind::Minus }), s + 1)
    } else if b == 42 {
        (Ok(Token { loc, kind: TokenKind::Star }), s + 1)
    } else if b == 61 {
        (Ok(Token { loc, kind: TokenKind::Eq }), s + 1)
    } else {
        (Err(ParseError { loc, kind: ErrorKind::InvalidTokenStart }), s + 1)
    }
}

/// One raw lexing step from lookahead index `i`: skip whitespace, then scan
/// one token, or `None` if only whitespace remains.
pub open spec fn raw_step(input: Seq<u8>, i: int) -> Option<(LexItem, int)>
    recommends
        0 <= i <= input.len(),
{
    let s = ws_end(input, i);
    if s == input.len() {
        None
    } else {
        Some(scan_at(input, s))
    }
}

/// Scanning one token consumes at least one byte and stays inside the
/// input.
pub proof fn lemma_scan_at_bounds(input: Seq<u8>, s: int)
    requires
        0 <= s < input.len(),
        !is_ws(input[s]),
    ensures
        s < scan_at(input, s).1 <= input.len(),
{
    lemma_scan_bounds(input, s);
    lemma_scan_bounds(input, s + 1);
    let b = input[s];
    if is_alpha(b) {
        let e = alnum_end(input, s);
        assert(e >= s + 1);
        if e - s == 1 && b == 99 {
            assert(s < line_end(input, e) <= input.len());
        }
    }
}

/// A raw step either ends the stream at the end of the input, or makes
/// strict progress.
pub proof fn lemma_raw_step(input: Seq<u8>, i: int)
    requires
        0 <= i <= input.len(),
    ensures
        match raw_step(input, i) {
            None => ws_end(input, i) == input.len(),
            Some(p) => i < p.1 <= input.len(),
        },
{
    lemma_scan_bounds(input, i);
    let s = ws_end(input, i);
    if s < input.len() {
        assert(!is_ws(input[s]));
        lemma_scan_at_bounds(input, s);
    }
}

/// Whether an item survives comment filtering: every error and every
/// non-comment token does.
pub open spec fn is_sig(it: LexItem) -> bool {
    match it {
        Ok(t) => !(t.kind is Comment),
        Err(_) => true,
    }
}

/// The full raw item sequence from lookahead index `i`: comments and errors
/// included.
pub open spec fn raw_toks(input: Seq<u8>, i: int) -> Seq<LexItem>
    decreases input.len() - i when 0 <= i <= input.len()
{
    match raw_step(input, i) {
        None => Seq::empty(),
        Some(p) => {
            proof {
                lemma_raw_step(input, i);
            }
            seq![p.0] + raw_toks(input, p.1)
        },
    }
}

/// The comment-filtered item sequence from lookahead index `i`: what the
/// filtering lexer hands to the parser.
pub open spec fn toks_from(input: Seq<u8>, i: int) -> Seq<LexItem>
    decreases input.len() - i when 0 <= i <= input.len()
{
    match raw_step(input, i) {
        None => Seq::empty(),
        Some(p) => {
            proof {
                lemma_raw_step(input, i);
            }
            if is_sig(p.0) {
                seq![p.0] + toks_from(input, p.1)
            } else {
                toks_from(input, p.1)
            }
        },
    }
}

/// The token sequence of a whole input.
pub open spec fn toks(input: Seq<u8>) -> Seq<LexItem> {
    toks_from(input, 0)
}

/// Filtering removes all and only the comment tokens and keeps every other
/// item in order: the filtered sequence is exactly the raw sequence with
/// comments dropped, and no comment survives.
pub proof fn lemma_filter_comments(input: Seq<u8>, i: int)
    requires
        0 <= i <= input.len(),
    ensures
        toks_from(input, i) == raw_toks(input, i).filter(|it: LexItem| is_sig(it)),
        forall|k: int|
            0 <= k < toks_from(input, i).len() ==> is_sig(#[trigger] toks_from(input, i)[k]),
    decreases input.len() - i,
{
    broadcast use group_seq_properties;

    reveal(Seq::filter);
    let pred = |it: LexItem| is_sig(it);
    match raw_step(input, i) {
        None => {
            assert(raw_toks(input, i).filter(pred) =~= Seq::empty());
        },
        Some(p) => {
            lemma_raw_step(input, i);
            lemma_filter_comments(input, p.1);
            Seq::filter_distributes_over_add(seq![p.0], raw_toks(input, p.1), pred);
            assert(seq![p.0].drop_last() =~= Seq::<LexItem>::empty());
            assert(seq![p.0].last() == p.0);
            assert(Seq::<LexItem>::empty().filter(pred) == Seq::<LexItem>::empty());
            if is_sig(p.0) {
                assert(seq![p.0].filter(pred) =~= seq![p.0]);
                assert(toks_from(input, i) =~= seq![p.0] + toks_from(input, p.1));
            } else {
                assert(seq![p.0].filter(pred) =~= Seq::<LexItem>::empty());
                assert(toks_from(input, i) =~= toks_from(input, p.1));
            }
        },
    }
}

/// Whether an item obeys the lexer's numeric guarantee: a `Nat` token never
/// carries the value zero.
pub open spec fn nat_pos(it: LexItem) -> bool {
    match it {
        Ok(t) => match t.kind {
            TokenKind::Nat(v) => v >= 1,
            _ => true,
        },
        Err(_) => true,
    }
}

/// Every number token the lexer emits is positive.
pub proof fn lemma_toks_nat_pos(input: Seq<u8>, i: int)
    requires
        0 <= i <= input.len(),
    ensures
        forall|k: int|
            0 <= k < toks_from(input, i).len() ==> nat_pos(#[trigger] toks_from(input, i)[k]),
    decreases input.len() - i,
{
    match raw_step(input, i) {
        None => {},
        Some(p) => {
            lemma_raw_step(input, i);
            lemma_scan_bounds(input, i);
            lemma_toks_nat_pos(input, p.1);
            let s = ws_end(input, i);
            let cur = toks_from(input, i);
            let rest = toks_from(input, p.1);
            if p.0 matches Ok(t) && t.kind matches TokenKind::Nat(v) {
                let e = digits_end(input, s);
                lemma_scan_bounds(input, s + 1);
                lemma_digits_run(input, s);
                lemma_nat_val_bounds(input, s, e);
            }
            assert forall|k: int| 0 <= k < cur.len() implies nat_pos(cur[k]) by {
                if is_sig(p.0) {
                    if k == 0 {
                        assert(cur[k] == p.0);
                    } else {
                        assert(cur[k] == rest[k - 1]);
                    }
                } else {
                    assert(cur[k] == rest[k]);
                }
            }
        },
    }
}

/// A byte outside letters, digits, the operator bytes and whitespace fails
/// with `InvalidTokenStart` at its exact position, and the scan resumes at
/// the very next byte.
pub proof fn lemma_invalid_token_start(input: Seq<u8>, i: int)
    requires
        0 <= i <= input.len(),
        ws_end(input, i) < input.len(),
        !is_alnum(input[ws_end(input, i)]),
        !is_op(input[ws_end(input, i)]),
    ensures
        raw_step(input, i) == Some(
            (
                Err::<Token, ParseError>(
                    ParseError {
                        loc: loc_at(input, ws_end(input, i)),
                        kind: ErrorKind::InvalidTokenStart,
                    },
                ),
                ws_end(input, i) + 1,
            ),
        ),
{
    lemma_scan_bounds(input, i);
}

/// A numeral with a leading zero lexes as `Zero` immediately followed by
/// the number formed by the remaining digit run, never as one multi-digit
/// number.
pub proof fn lemma_leading_zero(input: Seq<u8>, i: int)
    requires
        0 <= i <= input.len(),
        ws_end(input, i) < input.len(),
        input[ws_end(input, i)] == 48,
    ensures
        raw_step(input, i) == Some(
            (
                Ok::<Token, ParseError>(
                    Token { loc: loc_at(input, ws_end(input, i)), kind: TokenKind::Zero },
                ),
                ws_end(input, i) + 1,
            ),
        ),
        ({
            let s = ws_end(input, i);
            let e = digits_end(input, s + 1);
            s + 1 < input.len() && is_digit(input[s + 1]) && input[s + 1] != 48 && nat_val(
                input,
                s + 1,
                e,
            ) <= u64::MAX ==> raw_step(input, s + 1) == Some(
                (
                    Ok::<Token, ParseError>(
                        Token {
                            loc: loc_at(input, s + 1),
                            kind: TokenKind::Nat(nat_val(input, s + 1, e) as u64),
                        },
                    ),
                    e,
                ),
            )
        }),
{
    lemma_scan_bounds(input, i);
    let s = ws_end(input, i);
    lemma_scan_bounds(input, s + 1);
}

/// Every byte of a digit run is a digit.
pub proof fn lemma_digits_run(input: Seq<u8>, s: int)
    requires
        0 <= s <= input.len(),
    ensures
        forall|j: int| s <= j < digits_end(input, s) ==> is_digit(#[trigger] input[j]),
    decreases input.len() - s,
{
    if s < input.len() && is_digit(input[s]) {
        lemma_digits_run(input, s + 1);
    }
}

// ---------------------------------------------------------------------------
// The executable lexer.
// ---------------------------------------------------------------------------

fn byte_is_ws(b: u8) -> (r: bool)
    ensures
        r == is_ws(b),
{
    b == 32 || b == 9 || b == 10 || b == 12 || b == 13
}

fn byte_is_digit(b: u8) -> (r: bool)
    ensures
        r == is_digit(b),
{
    48 <= b && b <= 57
}

fn byte_is_alpha(b: u8) -> (r: bool)
    ensures
        r == is_alpha(b),
{
    (65 <= b && b <= 90) || (97 <= b && b <= 122)
}

fn byte_is_alnum(b: u8) -> (r: bool)
    ensures
        r == is_alnum(b),
{
    byte_is_digit(b) || byte_is_alpha(b)
}

/// The raw lexer: owns the input bytes, a lookahead index and the current
/// line/column position, and produces one token or lexical error per call.
#[derive(Debug)]
pub struct Lexer {
    /// The input bytes.
    input: Vec<u8>,
    /// The index of the lookahead byte: everything before it is consumed.
    i: usize,
    /// The line of the position reached by consuming `i` bytes.
    line: u64,
    /// The column of that position.
    col: u64,
}

impl Lexer {
    /// The input as a sequence.
    pub closed spec fn inp(&self) -> Seq<u8> {
        self.input@
    }

    /// The lookahead index.
    pub closed spec fn pos(&self) -> int {
        self.i as int
    }

    /// Well-formed: the index is inside the input (whose length leaves room
    /// for an index), and the tracked position is the one reached by
    /// consuming the bytes before the index.
    pub closed spec fn wf(&self) -> bool {
        &&& self.i <= self.input@.len()
        &&& self.input@.len() < usize::MAX
        &&& Loc { line: self.line, col: self.col } == loc_after(self.input@, self.i as int)
    }

    /// Starts a lexer at the beginning of the given input.
    pub fn from(input: Vec<u8>) -> (r: Lexer)
        requires
            input@.len() < usize::MAX,
        ensures
            r.wf(),
            r.inp() == input@,
            r.pos() == 0,
    {
        Lexer { input, i: 0, line: 1, col: 0 }
    }

    /// Consumes the lookahead byte, advancing the position past it.
    fn bump(&mut self)
        requires
            old(self).wf(),
            old(self).pos() < old(self).inp().len(),
        ensures
            final(self).wf(),
            final(self).inp() == old(self).inp(),
            final(self).pos() == old(self).pos() + 1,
    {
        proof {
            lemma_loc_bounds(self.input@, self.i as int);
        }
        let b = self.input[self.i];
        if b == 10 {
            self.line = self.line + 1;
            self.col = 0;
        } else {
            self.col = self.col + 1;
        }
        self.i = self.i + 1;
    }

    /// Skips whitespace, stopping at the first significant byte or the end
    /// of the input.
    fn skip_whitespace(&mut self)
        requires
            old(self).wf(),
        ensures
            final(self).wf(),
            final(self).inp() == old(self).inp(),
            final(self).pos() == ws_end(old(self).inp(), old(self).pos()),
    {
        let ghost i0 = self.i as int;
        while self.i < self.input.len() && byte_is_ws(self.input[self.i])
            invariant
                self.wf(),
                self.inp() == old(self).inp(),
                i0 <= self.i as int,
                ws_end(self.inp(), i0) == ws_end(self.inp(), self.i as int),
            decreases self.inp().len() - self.i as int,
        {
            self.bump();
        }
    }

    /// Skips to the next line terminator (not consumed) or the end of the
    /// input: the body of a comment.
    fn skip_line(&mut self)
        requires
            old(self).wf(),
        ensures
            final(self).wf(),
            final(self).inp() == old(self).inp(),
            final(self).pos() == line_end(old(self).inp(), old(self).pos()),
    {
        let ghost i0 = self.i as int;
        while self.i < self.input.len() && self.input[self.i] != 10
            invariant
                self.wf(),
                self.inp() == old(self).inp(),
                i0 <= self.i as int,
                line_end(self.inp(), i0) == line_end(self.inp(), self.i as int),
            decreases self.inp().len() - self.i as int,
        {
            self.bump();
        }
    }

    /// Scans a comment: consumes through the end of the line and yields a
    /// `Comment` token positioned at the opening `c`.
    fn scan_comment(&mut self, tok_loc: Loc) -> (r: Result<Token, ParseError>)
        requires
            old(self).wf(),
        ensures
            final(self).wf(),
            final(self).inp() == old(self).inp(),
            final(self).pos() == line_end(old(self).inp(), old(self).pos()),
            r == Ok::<Token, ParseError>(Token { loc: tok_loc, kind: TokenKind::Comment }),
    {
        self.skip_line();
        Ok(Token::new(tok_loc, TokenKind::Comment))
    }

    /// Scans a keyword or comment starting at the current letter, consuming
    /// the whole letter-digit run (and, for a comment, the rest of the
    /// line).
    fn scan_keyword(&mut self, tok_loc: Loc) -> (r: Result<Token, ParseError>)
        requires
            old(self).wf(),
            old(self).pos() < old(self).inp().len(),
            is_alpha(old(self).inp()[old(self).pos()]),
            tok_loc == loc_at(old(self).inp(), old(self).pos()),
        ensures
            final(self).wf(),
            final(self).inp() == old(self).inp(),
            r == scan_at(old(self).inp(), old(self).pos()).0,
            final(self).pos() == scan_at(old(self).inp(), old(self).pos()).1,
    {
        let ghost s = self.i as int;
        let start = self.i;
        while self.i < self.input.len() && byte_is_alnum(self.input[self.i])
            invariant
                self.wf(),
                self.inp() == old(self).inp(),
                s <= self.i as int,
                alnum_end(self.inp(), s) == alnum_end(self.inp(), self.i as int),
            decreases self.inp().len() - self.i as int,
        {
            self.bump();
        }
        let e = self.i;
        proof {
            assert(e as int == alnum_end(self.inp(), s));
        }
        let n = e - start;
        if n == 1 && self.input[start] == 99 {
            self.scan_comment(tok_loc)
        } else {
            let id = self.keyword_of(start, e);
            match id {
                Some(id) => Ok(Token::new(tok_loc, TokenKind::Ident(id))),
                None => Err(ParseError::new(tok_loc, ErrorKind::UnknownKeyword)),
            }
        }
    }

    /// Looks the run `input[s..e)` up in the keyword table.
    fn keyword_of(&self, s: usize, e: usize) -> (r: Option<Ident>)
        requires
            self.wf(),
            s <= e <= self.inp().len(),
        ensures
            r == kw_of(self.inp(), s as int, e as int),
    {
        let n = e - s;
        if n == 1 && self.input[s] == 112 {
            Some(Ident::Problem)
        } else if n == 3 && self.input[s] == 99 && self.input[s + 1] == 110 && self.input[s + 2]
            == 102 {
            Some(Ident::Cnf)
        } else if n == 3 && self.input[s] == 120 && self.input[s + 1] == 111 && self.input[s + 2]
            == 114 {
            Some(Ident::Xor)
        } else if 3 <= n && n <= 5 && self.input[s] == 115 && self.input[s + 1] == 97
            && self.input[s + 2] == 116 {
            if n == 3 {
                Some(Ident::Sat)
            } else if n == 4 && self.input[s + 3] == 120 {
                Some(Ident::Satx)
            } else if n == 4 && self.input[s + 3] == 101 {
                Some(Ident::Sate)
            } else if n == 5 && self.input[s + 3] == 101 && self.input[s + 4] == 120 {
                Some(Ident::Satex)
            } else {
                None
            }
        } else {
            None
        }
    }

    /// Scans a number starting at the current digit (which is not `0`),
    /// consuming the whole digit run. A run whose value does not fit in 64
    /// bits fails with `NumberOverflow` at the number's position.
    fn scan_nat(&mut self, tok_loc: Loc) -> (r: Result<Token, ParseError>)
        requires
            old(self).wf(),
            old(self).pos() < old(self).inp().len(),
            is_digit(old(self).inp()[old(self).pos()]),
            old(self).inp()[old(self).pos()] != 48,
            tok_loc == loc_at(old(self).inp(), old(self).pos()),
        ensures
            final(self).wf(),
            final(self).inp() == old(self).inp(),
            r == scan_at(old(self).inp(), old(self).pos()).0,
            final(self).pos() == scan_at(old(self).inp(), old(self).pos()).1,
    {
        let ghost s = self.i as int;
        let mut val: u64 = (self.input[self.i] - 48) as u64;
        let mut overflow = false;
        proof {
            assert(nat_val(self.inp(), s, s) == 0);
        }
        self.bump();
        while self.i < self.input.len() && byte_is_digit(self.input[self.i])
            invariant
                self.wf(),
                self.inp() == old(self).inp(),
                s < self.i as int,
                digits_end(self.inp(), s) == digits_end(self.inp(), self.i as int),
                !overflow ==> val == nat_val(self.inp(), s, self.i as int),
                overflow ==> nat_val(self.inp(), s, self.i as int) > u64::MAX,
                forall|j: int| s <= j < self.i as int ==> is_digit(#[trigger] self.inp()[j]),
            decreases self.inp().len() - self.i as int,
        {
            let d = self.input[self.i] - 48;
            let ghost val_before = nat_val(self.inp(), s, self.i as int);
            if !overflow {
                match val.checked_mul(10) {
                    Some(m) => match m.checked_add(d as u64) {
                        Some(v2) => {
                            val = v2;
                        },
                        None => {
                            overflow = true;
                        },
                    },
                    None => {
                        overflow = true;
                    },
                }
            } else {
                proof {
                    assert(val_before * 10 >= val_before) by (nonlinear_arith)
                        requires val_before >= 0;
                }
            }
            self.bump();
        }
        proof {
            lemma_digits_run(self.inp(), s);
        }
        if overflow {
            Err(ParseError::new(tok_loc, ErrorKind::NumberOverflow))
        } else {
            Ok(Token::new(tok_loc, TokenKind::Nat(val)))
        }
    }

    /// Produces the next raw token or lexical error, or `None` once only
    /// whitespace remains. A failure does not end the stream: the scanner
    /// has already advanced past the offending bytes, so the following call
    /// continues from there.
    pub fn next_token(&mut self) -> (r: Option<Result<Token, ParseError>>)
        requires
            old(self).wf(),
        ensures
            final(self).wf(),
            final(self).inp() == old(self).inp(),
            match raw_step(old(self).inp(), old(self).pos()) {
                None => r is None && final(self).pos() == final(self).inp().len(),
                Some(p) => r == Some(p.0) && final(self).pos() == p.1,
            },
    {
        self.skip_whitespace();
        if self.i == self.input.len() {
            return None;
        }
        let ghost s = self.i as int;
        proof {
            lemma_loc_bounds(self.inp(), s);
            lemma_scan_bounds(self.inp(), old(self).pos());
            assert(!is_ws(self.inp()[s]));
        }
        let b = self.input[self.i];
        let tok_loc = Loc { line: self.line, col: self.col + 1 };
        proof {
            assert(tok_loc == loc_at(self.inp(), s));
        }
        if byte_is_alpha(b) {
            Some(self.scan_keyword(tok_loc))
        } else if b == 48 {
            self.bump();
            Some(Ok(Token::new(tok_loc, TokenKind::Zero)))
        } else if byte_is_digit(b) {
            Some(self.scan_nat(tok_loc))
        } else if b == 40 {
            self.bump();
            Some(Ok(Token::new(tok_loc, TokenKind::Open)))
        } else if b == 41 {
            self.bump();
            Some(Ok(Token::new(tok_loc, TokenKind::Close)))
        } else if b == 43 {
            self.bump();
            Some(Ok(Token::new(tok_loc, TokenKind::Plus)))
        } else if b == 45 {
            self.bump();
            Some(Ok(Token::new(tok_loc, TokenKind::Minus)))
        } else if b == 42 {
            self.bump();
            Some(Ok(Token::new(tok_loc, TokenKind::Star)))
        } else if b == 61 {
            self.bump();
            Some(Ok(Token::new(tok_loc, TokenKind::Eq)))
        } else {
            self.bump();
            Some(Err(ParseError::new(tok_loc, ErrorKind::InvalidTokenStart)))
        }
    }
}

/// The filtering lexer: wraps the raw lexer and silently skips comment
/// tokens, passing every other token and every error through unchanged.
#[derive(Debug)]
pub struct ValidLexer {
    input: Lexer,
}

impl ValidLexer {
    /// The input as a sequence.
    pub closed spec fn inp(&self) -> Seq<u8> {
        self.input.inp()
    }

    /// The lookahead index of the wrapped lexer.
    pub closed spec fn pos(&self) -> int {
        self.input.pos()
    }

    pub closed spec fn wf(&self) -> bool {
        self.input.wf()
    }

    /// Starts a filtering lexer at the beginning of the given input.
    pub fn from(input: Vec<u8>) -> (r: ValidLexer)
        requires
            input@.len() < usize::MAX,
        ensures
            r.wf(),
            r.inp() == input@,
            r.pos() == 0,
    {
        ValidLexer { input: Lexer::from(input) }
    }

    /// Produces the next grammatically relevant item: the first remaining
    /// non-comment token or error.
    pub fn next_token(&mut self) -> (r: Option<Result<Token, ParseError>>)
        requires
            old(self).wf(),
        ensures
            final(self).wf(),
            final(self).inp() == old(self).inp(),
            ({
                let f0 = toks_from(old(self).inp(), old(self).pos());
                match r {
                    None => f0.len() == 0 && final(self).pos() == final(self).inp().len(),
                    Some(it) => f0.len() > 0 && it == f0[0] && toks_from(final(self).inp(), final(self).pos())
                        == f0.drop_first() && final(self).pos() > old(self).pos(),
                }
            }),
    {
        let ghost i0 = self.pos();
        let ghost f0 = toks_from(self.inp(), i0);
        loop
            invariant
                self.wf(),
                self.inp() == old(self).inp(),
                i0 == old(self).pos(),
                f0 == toks_from(old(self).inp(), old(self).pos()),
                i0 <= self.pos() <= self.inp().len(),
                toks_from(self.inp(), self.pos()) == f0,
            decreases self.inp().len() - self.pos(),
        {
            proof {
                lemma_raw_step(self.inp(), self.pos());
            }
            let ghost i_cur = self.pos();
            match self.input.next_token() {
                None => {
                    return None;
                },
                Some(item) => {
                    let keep = match &item {
                        Ok(t) => t.kind.is_relevant(),
                        Err(_) => true,
                    };
                    proof {
                        let step = raw_step(self.inp(), i_cur);
                        assert(step matches Some(p) && p.0 == item && p.1 == self.pos());
                        if keep {
                            assert(f0 == seq![item] + toks_from(self.inp(), self.pos()));
                            assert(f0[0] == item);
                            assert(f0.drop_first() =~= toks_from(self.inp(), self.pos()));
                        }
                    }
                    if keep {
                        return Some(item);
                    }
                },
            }
        }
    }
}

} // verus!
