//! The recursive-descent parser: consumes the filtered token stream with one
//! token of lookahead and builds a typed instance.
//!
//! The specification side defines the grammar as functions over the filtered
//! item sequence: `sp_header`, `sp_formula`, `sp_clauses` and their helpers
//! map a token index to the parsed value and the index after it, or to the
//! exact error the grammar prescribes. The executable `Parser` is proved to
//! return precisely what these functions compute on the lexer's output.

use vstd::prelude::*;
use crate::errors::ErrorKind;
use crate::errors::Loc;
use crate::errors::ParseError;
use crate::items::Clause;
use crate::items::Extensions;
use crate::items::Formula;
use crate::items::Instance;
use crate::items::Lit;
use crate::items::Sign;
use crate::items::SpecFormula;
use crate::items::SpecInstance;
use crate::items::cviews;
use crate::items::fview;
use crate::items::fviews;
use crate::items::lemma_fviews_push;
use crate::lexer::Ident;
use crate::lexer::LexItem;
use crate::lexer::Token;
use crate::lexer::TokenKind;
use crate::lexer::ValidLexer;
use crate::lexer::toks;
use crate::lexer::toks_from;

verus! {

// ---------------------------------------------------------------------------
// The specification model of the parse.
// ---------------------------------------------------------------------------

/// The position carried by an item.
pub open spec fn item_loc(it: LexItem) -> Loc {
    match it {
        Ok(t) => t.loc,
        Err(e) => e.loc,
    }
}

/// The position reported when the token stream runs out: that of the last
/// item, or the initial sentinel position when there is none.
pub open spec fn end_loc(ts: Seq<LexItem>) -> Loc {
    if ts.len() == 0 {
        Loc { line: 0, col: 0 }
    } else {
        item_loc(ts[ts.len() - 1])
    }
}

/// The item the parser sees at token index `c`: the item itself inside the
/// sequence, and an end-of-file error positioned at `end_loc` beyond it.
pub open spec fn item_at(ts: Seq<LexItem>, c: int) -> LexItem {
    if 0 <= c < ts.len() {
        ts[c]
    } else {
        Err(ParseError { loc: end_loc(ts), kind: ErrorKind::UnexpectedEndOfFile })
    }
}

/// Matching one token of the given kind: the token and the index after it,
/// or the error the attempt raises (an error item is passed through, a
/// mismatch is `UnexpectedToken` at the token's position).
pub open spec fn sp_expect(ts: Seq<LexItem>, c: int, expected: TokenKind) -> Result<
    (Token, int),
    ParseError,
> {
    match item_at(ts, c) {
        Err(e) => Err(e),
        Ok(t) => if t.kind == expected {
            Ok((t, c + 1))
        } else {
            Err(ParseError { loc: t.loc, kind: ErrorKind::UnexpectedToken })
        },
    }
}

/// Reading the value of a number token at `c` without consuming it.
pub open spec fn sp_expect_nat(ts: Seq<LexItem>, c: int) -> Result<u64, ParseError> {
    match item_at(ts, c) {
        Err(e) => Err(e),
        Ok(t) => match t.kind {
            TokenKind::Nat(v) => Ok(v),
            _ => Err(ParseError { loc: t.loc, kind: ErrorKind::UnexpectedToken }),
        },
    }
}

/// One formula of the grammar
/// `formula := NAT | '(' formula ')' | '+' params | '*' params | '=' params
/// | 'xor' params | '-' ( '(' formula ')' | NAT )`, starting at `c`.
pub open spec fn sp_formula(ts: Seq<LexItem>, c: int) -> Result<(SpecFormula, int), ParseError>
    decreases ts.len() - c, 1int,
{
    match item_at(ts, c) {
        Err(e) => Err(e),
        Ok(t) => match t.kind {
            TokenKind::Nat(v) => Ok((SpecFormula::Lit(Lit { var: v, sign: Sign::Pos }), c + 1)),
            TokenKind::Open => match sp_formula(ts, c + 1) {
                Err(e) => Err(e),
                Ok((f, c2)) => match sp_expect(ts, c2, TokenKind::Close) {
                    Err(e) => Err(e),
                    Ok((_t, c3)) => Ok((SpecFormula::Paren(Box::new(f)), c3)),
                },
            },
            TokenKind::Plus => match sp_params(ts, c + 1) {
                Err(e) => Err(e),
                Ok((fs, c2)) => Ok((SpecFormula::Or(fs), c2)),
            },
            TokenKind::Star => match sp_params(ts, c + 1) {
                Err(e) => Err(e),
                Ok((fs, c2)) => Ok((SpecFormula::And(fs), c2)),
            },
            TokenKind::Eq => match sp_params(ts, c + 1) {
                Err(e) => Err(e),
                Ok((fs, c2)) => Ok((SpecFormula::Eq(fs), c2)),
            },
            TokenKind::Ident(Ident::Xor) => match sp_params(ts, c + 1) {
                Err(e) => Err(e),
                Ok((fs, c2)) => Ok((SpecFormula::Xor(fs), c2)),
            },
            TokenKind::Minus => match item_at(ts, c + 1) {
                Err(e) => Err(e),
                Ok(t2) => match t2.kind {
                    TokenKind::Open => match sp_formula(ts, c + 2) {
                        Err(e) => Err(e),
                        Ok((f, c2)) => match sp_expect(ts, c2, TokenKind::Close) {
                            Err(e) => Err(e),
                            Ok((_t, c3)) => Ok((SpecFormula::Neg(Box::new(f)), c3)),
                        },
                    },
                    TokenKind::Nat(v) => Ok(
                        (SpecFormula::Lit(Lit { var: v, sign: Sign::Neg }), c + 2),
                    ),
                    _ => Err(ParseError { loc: t2.loc, kind: ErrorKind::UnexpectedToken }),
                },
            },
            _ => Err(ParseError { loc: t.loc, kind: ErrorKind::UnexpectedToken }),
        },
    }
}

/// A parenthesized, whitespace-separated formula list:
/// `params := '(' formula* ')'`.
pub open spec fn sp_params(ts: Seq<LexItem>, c: int) -> Result<
    (Seq<SpecFormula>, int),
    ParseError,
>
    decreases ts.len() - c, 0int,
{
    match sp_expect(ts, c, TokenKind::Open) {
        Err(e) => Err(e),
        Ok((_t, c1)) => match sp_formula_list(ts, c1) {
            Err(e) => Err(e),
            Ok((fs, c2)) => match sp_expect(ts, c2, TokenKind::Close) {
                Err(e) => Err(e),
                Ok((_t2, c3)) => Ok((fs, c3)),
            },
        },
    }
}

/// Formulas repeated until a closing parenthesis (which is not consumed).
pub open spec fn sp_formula_list(ts: Seq<LexItem>, c: int) -> Result<
    (Seq<SpecFormula>, int),
    ParseError,
>
    decreases ts.len() - c, 2int,
{
    match item_at(ts, c) {
        Err(e) => Err(e),
        Ok(t) => if t.kind == TokenKind::Close {
            Ok((Seq::empty(), c))
        } else {
            match sp_formula(ts, c) {
                Err(e) => Err(e),
                Ok((f, c2)) => if c < c2 <= ts.len() {
                    match sp_formula_list(ts, c2) {
                        Err(e) => Err(e),
                        Ok((fs, c3)) => Ok((seq![f] + fs, c3)),
                    }
                } else {
                    // A parsed formula always advances the index
                    // (`lemma_sp_formula_progress`), so this branch never
                    // holds; it only bounds the recursion.
                    Err(ParseError { loc: t.loc, kind: ErrorKind::UnexpectedToken })
                },
            }
        },
    }
}

/// A parsed formula consumes at least one token; a parsed list ends at or
/// after its start, inside the stream.
pub proof fn lemma_sp_formula_progress(ts: Seq<LexItem>, c: int)
    ensures
        sp_formula(ts, c) matches Ok(p) ==> c + 1 <= p.1 <= ts.len(),
    decreases ts.len() - c, 1int,
{
    match item_at(ts, c) {
        Err(_) => {},
        Ok(t) => match t.kind {
            TokenKind::Open => {
                lemma_sp_formula_progress(ts, c + 1);
            },
            TokenKind::Plus => {
                lemma_sp_params_progress(ts, c + 1);
            },
            TokenKind::Star => {
                lemma_sp_params_progress(ts, c + 1);
            },
            TokenKind::Eq => {
                lemma_sp_params_progress(ts, c + 1);
            },
            TokenKind::Ident(Ident::Xor) => {
                lemma_sp_params_progress(ts, c + 1);
            },
            TokenKind::Minus => {
                match item_at(ts, c + 1) {
                    Ok(t2) => match t2.kind {
                        TokenKind::Open => {
                            lemma_sp_formula_progress(ts, c + 2);
                        },
                        _ => {},
                    },
                    Err(_) => {},
                }
            },
            _ => {},
        },
    }
}

/// See `lemma_sp_formula_progress`.
pub proof fn lemma_sp_params_progress(ts: Seq<LexItem>, c: int)
    ensures
        sp_params(ts, c) matches Ok(p) ==> c + 1 <= p.1 <= ts.len(),
    decreases ts.len() - c, 0int,
{
    match item_at(ts, c) {
        Err(_) => {},
        Ok(t) => {
            if t.kind == TokenKind::Open {
                lemma_sp_formula_list_progress(ts, c + 1);
            }
        },
    }
}

/// See `lemma_sp_formula_progress`.
pub proof fn lemma_sp_formula_list_progress(ts: Seq<LexItem>, c: int)
    ensures
        sp_formula_list(ts, c) matches Ok(p) ==> c <= p.1 <= ts.len(),
    decreases ts.len() - c, 2int,
{
    match item_at(ts, c) {
        Err(_) => {},
        Ok(t) => {
            if t.kind != TokenKind::Close {
                lemma_sp_formula_progress(ts, c);
                match sp_formula(ts, c) {
                    Err(_) => {},
                    Ok(p) => {
                        if c < p.1 <= ts.len() {
                            lemma_sp_formula_list_progress(ts, p.1);
                        }
                    },
                }
            }
        },
    }
}

/// The extension set selected by the problem-kind keyword: `sat`, `sate`,
/// `satx` and `satex` map to no extensions, Eq, Xor, and both; anything else
/// here is `InvalidSatExtension`.
pub open spec fn sp_sat_extensions(ts: Seq<LexItem>, c: int) -> Result<
    (Extensions, int),
    ParseError,
> {
    match item_at(ts, c) {
        Err(e) => Err(e),
        Ok(t) => match t.kind {
            TokenKind::Ident(Ident::Sat) => Ok((Extensions { eq: false, xor: false }, c + 1)),
            TokenKind::Ident(Ident::Sate) => Ok((Extensions { eq: true, xor: false }, c + 1)),
            TokenKind::Ident(Ident::Satx) => Ok((Extensions { eq: false, xor: true }, c + 1)),
            TokenKind::Ident(Ident::Satex) => Ok((Extensions { eq: true, xor: true }, c + 1)),
            _ => Err(ParseError { loc: t.loc, kind: ErrorKind::InvalidSatExtension }),
        },
    }
}

/// One clause: literals (a number, or `-` then a number) up to and
/// including the terminating zero, in source order.
pub open spec fn sp_clause(ts: Seq<LexItem>, c: int) -> Result<(Seq<Lit>, int), ParseError>
    decreases ts.len() - c,
{
    match item_at(ts, c) {
        Err(e) => Err(e),
        Ok(t) => match t.kind {
            TokenKind::Zero => Ok((Seq::empty(), c + 1)),
            TokenKind::Nat(v) => match sp_clause(ts, c + 1) {
                Err(e) => Err(e),
                Ok((ls, c2)) => Ok((seq![Lit { var: v, sign: Sign::Pos }] + ls, c2)),
            },
            TokenKind::Minus => match item_at(ts, c + 1) {
                Err(e) => Err(e),
                Ok(t2) => match t2.kind {
                    TokenKind::Nat(v) => match sp_clause(ts, c + 2) {
                        Err(e) => Err(e),
                        Ok((ls, c2)) => Ok((seq![Lit { var: v, sign: Sign::Neg }] + ls, c2)),
                    },
                    _ => Err(ParseError { loc: t2.loc, kind: ErrorKind::UnexpectedToken }),
                },
            },
            _ => Err(ParseError { loc: t.loc, kind: ErrorKind::UnexpectedToken }),
        },
    }
}

/// Exactly `n` clauses, after which the stream must be exhausted: a further
/// token is `TooManyClauses` at its position, and a remaining lexical error
/// is passed through.
pub open spec fn sp_clauses(ts: Seq<LexItem>, c: int, n: u64) -> Result<
    (Seq<Seq<Lit>>, int),
    ParseError,
>
    decreases n,
{
    if n == 0 {
        match item_at(ts, c) {
            Err(e) => if e.kind == ErrorKind::UnexpectedEndOfFile {
                Ok((Seq::empty(), c))
            } else {
                Err(e)
            },
            Ok(t) => Err(ParseError { loc: t.loc, kind: ErrorKind::TooManyClauses }),
        }
    } else {
        match sp_clause(ts, c) {
            Err(e) => Err(e),
            Ok((cl, c2)) => match sp_clauses(ts, c2, (n - 1) as u64) {
                Err(e) => Err(e),
                Ok((cls, c3)) => Ok((seq![cl] + cls, c3)),
            },
        }
    }
}

/// The CNF body after `p`: the `cnf` keyword, the variable and clause
/// counts, then exactly that many clauses.
pub open spec fn sp_cnf_header(ts: Seq<LexItem>, c: int) -> Result<(SpecInstance, int), ParseError> {
    match sp_expect(ts, c, TokenKind::Ident(Ident::Cnf)) {
        Err(e) => Err(e),
        Ok((_t, c1)) => match sp_expect_nat(ts, c1) {
            Err(e) => Err(e),
            Ok(nv) => match sp_expect(ts, c1, TokenKind::Nat(nv)) {
                Err(e) => Err(e),
                Ok((_t2, c2)) => match sp_expect_nat(ts, c2) {
                    Err(e) => Err(e),
                    Ok(nc) => match sp_expect(ts, c2, TokenKind::Nat(nc)) {
                        Err(e) => Err(e),
                        Ok((_t3, c3)) => match sp_clauses(ts, c3, nc) {
                            Err(e) => Err(e),
                            Ok((cls, c4)) => Ok(
                                (SpecInstance::Cnf { num_vars: nv, clauses: cls }, c4),
                            ),
                        },
                    },
                },
            },
        },
    }
}

/// The SAT body after `p`: the extension keyword, the variable count, then
/// one formula.
pub open spec fn sp_sat_header(ts: Seq<LexItem>, c: int) -> Result<(SpecInstance, int), ParseError> {
    match sp_sat_extensions(ts, c) {
        Err(e) => Err(e),
        Ok((ext, c1)) => match sp_expect_nat(ts, c1) {
            Err(e) => Err(e),
            Ok(nv) => match sp_expect(ts, c1, TokenKind::Nat(nv)) {
                Err(e) => Err(e),
                Ok((_t, c2)) => match sp_formula(ts, c2) {
                    Err(e) => Err(e),
                    Ok((f, c3)) => Ok(
                        (SpecInstance::Sat { num_vars: nv, extensions: ext, formula: f }, c3),
                    ),
                },
            },
        },
    }
}

/// A whole problem: `p`, then a CNF or SAT body depending on the
/// problem-kind keyword.
pub open spec fn sp_header(ts: Seq<LexItem>, c: int) -> Result<(SpecInstance, int), ParseError> {
    match sp_expect(ts, c, TokenKind::Ident(Ident::Problem)) {
        Err(e) => Err(e),
        Ok((_t, c1)) => match item_at(ts, c1) {
            Err(e) => Err(e),
            Ok(t) => match t.kind {
                TokenKind::Ident(Ident::Cnf) => sp_cnf_header(ts, c1),
                TokenKind::Ident(Ident::Sat) => sp_sat_header(ts, c1),
                TokenKind::Ident(Ident::Sate) => sp_sat_header(ts, c1),
                TokenKind::Ident(Ident::Satx) => sp_sat_header(ts, c1),
                TokenKind::Ident(Ident::Satex) => sp_sat_header(ts, c1),
                _ => Err(ParseError { loc: t.loc, kind: ErrorKind::UnexpectedToken }),
            },
        },
    }
}

/// What parsing a token sequence yields.
pub open spec fn sp_parse(ts: Seq<LexItem>) -> Result<SpecInstance, ParseError> {
    match sp_header(ts, 0) {
        Err(e) => Err(e),
        Ok(p) => Ok(p.0),
    }
}

/// What parsing an input text yields: the grammar applied to the filtered
/// token sequence of the input. This is the specification the public entry
/// points are proved against.
pub open spec fn spec_parse_dimacs(input: Seq<u8>) -> Result<SpecInstance, ParseError> {
    sp_parse(toks(input))
}

// ---------------------------------------------------------------------------
// Laws relating the grammar's pieces.
// ---------------------------------------------------------------------------

/// Parsing `n` clauses yields exactly `n` clauses.
pub proof fn lemma_clause_count(ts: Seq<LexItem>, c: int, n: u64)
    ensures
        sp_clauses(ts, c, n) matches Ok(p) ==> p.0.len() == n,
    decreases n,
{
    if n > 0 {
        match sp_clause(ts, c) {
            Err(_) => {},
            Ok(p) => {
                lemma_clause_count(ts, p.1, (n - 1) as u64);
            },
        }
    }
}

/// A successfully parsed CNF body yields a CNF instance whose variable
/// count is the first declared number and whose clause count equals the
/// second: the clause sequence has exactly as many entries as the header
/// declares (each holding its literals in source order, as `sp_clause`
/// prescribes).
pub proof fn lemma_cnf_header_counts(ts: Seq<LexItem>, c: int)
    ensures
        match sp_cnf_header(ts, c) {
            Ok(p) => match p.0 {
                SpecInstance::Cnf { num_vars, clauses } => {
                    &&& sp_expect_nat(ts, c + 1) == Ok::<u64, ParseError>(num_vars)
                    &&& sp_expect_nat(ts, c + 2) == Ok::<u64, ParseError>(clauses.len() as u64)
                },
                _ => false,
            },
            Err(_) => true,
        },
{
    match sp_expect_nat(ts, c + 2) {
        Err(_) => {},
        Ok(nc) => {
            lemma_clause_count(ts, c + 3, nc);
        },
    }
}

/// Whether the item at `c` is the given keyword.
pub open spec fn kw_at(ts: Seq<LexItem>, c: int, kw: Ident) -> bool {
    match item_at(ts, c) {
        Ok(t) => t.kind == TokenKind::Ident(kw),
        Err(_) => false,
    }
}

/// The extension keywords map to extension sets exactly as the format
/// prescribes — `sat` to neither, `sate` to Eq, `satx` to Xor, `satex` to
/// both — and no other set is reachable.
pub proof fn lemma_sat_extension_map(ts: Seq<LexItem>, c: int)
    ensures
        kw_at(ts, c, Ident::Sat) <==> sp_sat_extensions(ts, c) == Ok::<(Extensions, int), ParseError>(
            (Extensions { eq: false, xor: false }, c + 1),
        ),
        kw_at(ts, c, Ident::Sate) <==> sp_sat_extensions(ts, c) == Ok::<
            (Extensions, int),
            ParseError,
        >((Extensions { eq: true, xor: false }, c + 1)),
        kw_at(ts, c, Ident::Satx) <==> sp_sat_extensions(ts, c) == Ok::<
            (Extensions, int),
            ParseError,
        >((Extensions { eq: false, xor: true }, c + 1)),
        kw_at(ts, c, Ident::Satex) <==> sp_sat_extensions(ts, c) == Ok::<
            (Extensions, int),
            ParseError,
        >((Extensions { eq: true, xor: true }, c + 1)),
{
}

/// What follows a `-` token in a formula: a number gives a single negative
/// literal, an opening parenthesis gives a negation node around the
/// sub-formula, and anything else is `UnexpectedToken` there.
pub proof fn lemma_minus_formula(ts: Seq<LexItem>, c: int)
    requires
        item_at(ts, c) matches Ok(t) && t.kind == TokenKind::Minus,
    ensures
        match item_at(ts, c + 1) {
            Ok(t2) => match t2.kind {
                TokenKind::Nat(v) => sp_formula(ts, c) == Ok::<(SpecFormula, int), ParseError>(
                    (SpecFormula::Lit(Lit { var: v, sign: Sign::Neg }), c + 2),
                ),
                TokenKind::Open => match sp_formula(ts, c + 2) {
                    Ok(p) => match sp_expect(ts, p.1, TokenKind::Close) {
                        Ok(q) => sp_formula(ts, c) == Ok::<(SpecFormula, int), ParseError>(
                            (SpecFormula::Neg(Box::new(p.0)), q.1),
                        ),
                        Err(e) => sp_formula(ts, c) == Err::<(SpecFormula, int), ParseError>(e),
                    },
                    Err(e) => sp_formula(ts, c) == Err::<(SpecFormula, int), ParseError>(e),
                },
                _ => sp_formula(ts, c) == Err::<(SpecFormula, int), ParseError>(
                    ParseError { loc: t2.loc, kind: ErrorKind::UnexpectedToken },
                ),
            },
            Err(e) => sp_formula(ts, c) == Err::<(SpecFormula, int), ParseError>(e),
        },
{
}

// ---------------------------------------------------------------------------
// The executable parser.
// ---------------------------------------------------------------------------

/// The recursive-descent parser: a filtering lexer and one item of
/// lookahead.
pub struct Parser {
    tokens: ValidLexer,
    peek: Result<Token, ParseError>,
    /// The token index of the current lookahead; -1 before the first token
    /// is pulled.
    k: Ghost<int>,
}

impl Parser {
    /// The input as a byte sequence.
    pub closed spec fn inp(&self) -> Seq<u8> {
        self.tokens.inp()
    }

    /// The filtered token sequence of the whole input.
    pub open spec fn ts(&self) -> Seq<LexItem> {
        toks(self.inp())
    }

    /// The token index of the current lookahead item.
    pub closed spec fn at(&self) -> int {
        self.k@
    }

    /// The current lookahead item.
    pub closed spec fn peek_view(&self) -> LexItem {
        self.peek
    }

    /// Well-formed: the lexer stands just after the lookahead item, and the
    /// lookahead is the item at the current index (or the initial sentinel).
    pub closed spec fn wf(&self) -> bool {
        &&& self.tokens.wf()
        &&& -1 <= self.k@ <= self.ts().len()
        &&& toks_from(self.inp(), self.tokens.pos()) == (if self.k@ + 1 <= self.ts().len() {
            self.ts().skip(self.k@ + 1)
        } else {
            Seq::<LexItem>::empty()
        })
        &&& self.peek == (if self.k@ == -1 {
            Err::<Token, ParseError>(
                ParseError { loc: Loc { line: 0, col: 0 }, kind: ErrorKind::EmptyTokenStream },
            )
        } else {
            item_at(self.ts(), self.k@)
        })
    }

    /// Fresh: no token has been consumed yet.
    pub closed spec fn fresh(&self) -> bool {
        self.k@ == -1
    }

    /// Starts a parser on the given input; the lookahead holds the
    /// `EmptyTokenStream` sentinel until the first token is pulled.
    pub fn from(input: Vec<u8>) -> (r: Parser)
        requires
            input@.len() < usize::MAX,
        ensures
            r.wf(),
            r.fresh(),
            r.inp() == input@,
    {
        let r = Parser {
            tokens: ValidLexer::from(input),
            peek: Err(ParseError::new(Loc::new(0, 0), ErrorKind::EmptyTokenStream)),
            k: Ghost(-1int),
        };
        proof {
            assert(r.ts().skip(0) =~= r.ts());
        }
        r
    }

    /// The position of the current lookahead item.
    fn peek_loc(&self) -> (r: Loc)
        ensures
            r == item_loc(self.peek_view()),
    {
        match &self.peek {
            Ok(t) => t.loc,
            Err(e) => e.loc,
        }
    }

    /// An error at the current lookahead's position.
    fn mk_err(&self, kind: ErrorKind) -> (r: ParseError)
        ensures
            r == (ParseError { loc: item_loc(self.peek_view()), kind }),
    {
        ParseError::new(self.peek_loc(), kind)
    }

    /// Advances the lookahead to the next item; at the end of the stream the
    /// lookahead becomes `UnexpectedEndOfFile` at the last known position.
    fn consume(&mut self)
        requires
            old(self).wf(),
            old(self).at() < old(self).ts().len(),
        ensures
            final(self).wf(),
            final(self).inp() == old(self).inp(),
            final(self).at() == old(self).at() + 1,
            final(self).peek_view() == item_at(old(self).ts(), old(self).at() + 1),
    {
        let ghost ts = self.ts();
        let ghost k = self.k@;
        let eof = ParseError::new(self.peek_loc(), ErrorKind::UnexpectedEndOfFile);
        match self.tokens.next_token() {
            Some(item) => {
                self.peek = item;
            },
            None => {
                self.peek = Err(eof);
            },
        }
        proof {
            self.k@ = k + 1;
            if k + 2 <= ts.len() {
                assert(ts.skip(k + 1).drop_first() =~= ts.skip(k + 2));
            }
            assert(toks_from(self.inp(), self.inp().len() as int) == Seq::<LexItem>::empty());
        }
    }

    /// If the lookahead is a token of the given kind, consumes it and
    /// returns it; otherwise fails without consuming.
    fn expect(&mut self, expected: TokenKind) -> (r: Result<Token, ParseError>)
        requires
            old(self).wf(),
            old(self).at() >= 0,
        ensures
            final(self).wf(),
            final(self).inp() == old(self).inp(),
            final(self).at() >= 0,
            match r {
                Ok(t) => sp_expect(old(self).ts(), old(self).at(), expected) == Ok::<
                    (Token, int),
                    ParseError,
                >((t, final(self).at())) && final(self).at() == old(self).at() + 1,
                Err(e) => sp_expect(old(self).ts(), old(self).at(), expected) == Err::<
                    (Token, int),
                    ParseError,
                >(e) && final(self).at() == old(self).at(),
            },
    {
        let cur = self.peek;
        match cur {
            Err(e) => Err(e),
            Ok(t) => {
                if t.kind == expected {
                    self.consume();
                    Ok(t)
                } else {
                    Err(self.mk_err(ErrorKind::UnexpectedToken))
                }
            },
        }
    }

    /// Returns the value of the lookahead number token without consuming
    /// it; the caller consumes it through `expect`.
    fn expect_nat(&self) -> (r: Result<u64, ParseError>)
        requires
            self.wf(),
            self.at() >= 0,
        ensures
            match r {
                Ok(v) => sp_expect_nat(self.ts(), self.at()) == Ok::<u64, ParseError>(v),
                Err(e) => sp_expect_nat(self.ts(), self.at()) == Err::<u64, ParseError>(e),
            },
    {
        let cur = self.peek;
        match cur {
            Err(e) => Err(e),
            Ok(t) => match t.kind {
                TokenKind::Nat(v) => Ok(v),
                _ => Err(self.mk_err(ErrorKind::UnexpectedToken)),
            },
        }
    }

    /// Parses the whole problem after the `p` keyword.
    fn parse_header(&mut self) -> (r: Result<Instance, ParseError>)
        requires
            old(self).wf(),
            old(self).at() >= 0,
        ensures
            final(self).wf(),
            final(self).inp() == old(self).inp(),
            final(self).at() >= 0,
            match r {
                Ok(inst) => sp_header(old(self).ts(), old(self).at()) == Ok::<
                    (SpecInstance, int),
                    ParseError,
                >((inst@, final(self).at())),
                Err(e) => sp_header(old(self).ts(), old(self).at()) == Err::<
                    (SpecInstance, int),
                    ParseError,
                >(e),
            },
    {
        match self.expect(TokenKind::Ident(Ident::Problem)) {
            Err(e) => Err(e),
            Ok(_) => {
                let cur = self.peek;
                match cur {
                    Err(e) => Err(e),
                    Ok(t) => match t.kind {
                        TokenKind::Ident(Ident::Cnf) => self.parse_cnf_header(),
                        TokenKind::Ident(Ident::Sat) => self.parse_sat_header(),
                        TokenKind::Ident(Ident::Sate) => self.parse_sat_header(),
                        TokenKind::Ident(Ident::Satx) => self.parse_sat_header(),
                        TokenKind::Ident(Ident::Satex) => self.parse_sat_header(),
                        _ => Err(self.mk_err(ErrorKind::UnexpectedToken)),
                    },
                }
            },
        }
    }

    /// Parses the CNF body: the `cnf` keyword, two counts, and exactly as
    /// many clauses as declared.
    fn parse_cnf_header(&mut self) -> (r: Result<Instance, ParseError>)
        requires
            old(self).wf(),
            old(self).at() >= 0,
        ensures
            final(self).wf(),
            final(self).inp() == old(self).inp(),
            final(self).at() >= 0,
            match r {
                Ok(inst) => sp_cnf_header(old(self).ts(), old(self).at()) == Ok::<
                    (SpecInstance, int),
                    ParseError,
                >((inst@, final(self).at())),
                Err(e) => sp_cnf_header(old(self).ts(), old(self).at()) == Err::<
                    (SpecInstance, int),
                    ParseError,
                >(e),
            },
    {
        match self.expect(TokenKind::Ident(Ident::Cnf)) {
            Err(e) => Err(e),
            Ok(_) => match self.expect_nat() {
                Err(e) => Err(e),
                Ok(num_vars) => match self.expect(TokenKind::Nat(num_vars)) {
                    Err(e) => Err(e),
                    Ok(_) => match self.expect_nat() {
                        Err(e) => Err(e),
                        Ok(num_clauses) => match self.expect(TokenKind::Nat(num_clauses)) {
                            Err(e) => Err(e),
                            Ok(_) => match self.parse_clauses(num_clauses) {
                                Err(e) => Err(e),
                                Ok(clauses) => Ok(Instance::cnf(num_vars, clauses)),
                            },
                        },
                    },
                },
            },
        }
    }

    /// Parses the problem-kind keyword of a SAT problem into its extension
    /// set.
    fn parse_sat_extensions(&mut self) -> (r: Result<Extensions, ParseError>)
        requires
            old(self).wf(),
            old(self).at() >= 0,
        ensures
            final(self).wf(),
            final(self).inp() == old(self).inp(),
            final(self).at() >= 0,
            match r {
                Ok(ext) => sp_sat_extensions(old(self).ts(), old(self).at()) == Ok::<
                    (Extensions, int),
                    ParseError,
                >((ext, final(self).at())),
                Err(e) => sp_sat_extensions(old(self).ts(), old(self).at()) == Err::<
                    (Extensions, int),
                    ParseError,
                >(e),
            },
    {
        let cur = self.peek;
        match cur {
            Err(e) => Err(e),
            Ok(t) => match t.kind {
                TokenKind::Ident(Ident::Sat) => match self.expect(TokenKind::Ident(Ident::Sat)) {
                    Err(e) => Err(e),
                    Ok(_) => Ok(Extensions::new(false, false)),
                },
                TokenKind::Ident(Ident::Sate) => match self.expect(TokenKind::Ident(Ident::Sate)) {
                    Err(e) => Err(e),
                    Ok(_) => Ok(Extensions::new(true, false)),
                },
                TokenKind::Ident(Ident::Satx) => match self.expect(TokenKind::Ident(Ident::Satx)) {
                    Err(e) => Err(e),
                    Ok(_) => Ok(Extensions::new(false, true)),
                },
                TokenKind::Ident(Ident::Satex) => match self.expect(
                    TokenKind::Ident(Ident::Satex),
                ) {
                    Err(e) => Err(e),
                    Ok(_) => Ok(Extensions::new(true, true)),
                },
                _ => Err(self.mk_err(ErrorKind::InvalidSatExtension)),
            },
        }
    }

    /// Parses the SAT body: the extension keyword, the variable count and
    /// one formula.
    fn parse_sat_header(&mut self) -> (r: Result<Instance, ParseError>)
        requires
            old(self).wf(),
            old(self).at() >= 0,
        ensures
            final(self).wf(),
            final(self).inp() == old(self).inp(),
            final(self).at() >= 0,
            match r {
                Ok(inst) => sp_sat_header(old(self).ts(), old(self).at()) == Ok::<
                    (SpecInstance, int),
                    ParseError,
                >((inst@, final(self).at())),
                Err(e) => sp_sat_header(old(self).ts(), old(self).at()) == Err::<
                    (SpecInstance, int),
                    ParseError,
                >(e),
            },
    {
        match self.parse_sat_extensions() {
            Err(e) => Err(e),
            Ok(extensions) => match self.expect_nat() {
                Err(e) => Err(e),
                Ok(num_vars) => match self.expect(TokenKind::Nat(num_vars)) {
                    Err(e) => Err(e),
                    Ok(_) => match self.parse_formula() {
                        Err(e) => Err(e),
                        Ok(formula) => Ok(Instance::sat(num_vars, extensions, formula)),
                    },
                },
            },
        }
    }

    /// Parses exactly `num_clauses` clauses and checks that nothing
    /// follows them.
    fn parse_clauses(&mut self, num_clauses: u64) -> (r: Result<Vec<Clause>, ParseError>)
        requires
            old(self).wf(),
            old(self).at() >= 0,
        ensures
            final(self).wf(),
            final(self).inp() == old(self).inp(),
            final(self).at() >= 0,
            match r {
                Ok(cls) => sp_clauses(old(self).ts(), old(self).at(), num_clauses) == Ok::<
                    (Seq<Seq<Lit>>, int),
                    ParseError,
                >((cviews(cls@), final(self).at())),
                Err(e) => sp_clauses(old(self).ts(), old(self).at(), num_clauses) == Err::<
                    (Seq<Seq<Lit>>, int),
                    ParseError,
                >(e),
            },
    {
        let ghost ts = self.ts();
        let ghost c0 = self.at();
        let mut clauses: Vec<Clause> = Vec::new();
        let mut parsed: u64 = 0;
        proof {
            assert(cviews(clauses@) =~= Seq::<Seq<Lit>>::empty());
            match sp_clauses(ts, c0, num_clauses) {
                Err(_) => {},
                Ok(p) => {
                    assert(cviews(clauses@) + p.0 =~= p.0);
                },
            }
        }
        while parsed < num_clauses
            invariant
                self.wf(),
                self.inp() == old(self).inp(),
                ts == self.ts(),
                c0 == old(self).at(),
                self.at() >= 0,
                parsed <= num_clauses,
                match sp_clauses(ts, self.at(), (num_clauses - parsed) as u64) {
                    Ok(p) => sp_clauses(ts, c0, num_clauses) == Ok::<
                        (Seq<Seq<Lit>>, int),
                        ParseError,
                    >((cviews(clauses@) + p.0, p.1)),
                    Err(e) => sp_clauses(ts, c0, num_clauses) == Err::<
                        (Seq<Seq<Lit>>, int),
                        ParseError,
                    >(e),
                },
            decreases num_clauses - parsed,
        {
            let ghost before = clauses@;
            let ghost c_pre = self.at();
            match self.parse_clause() {
                Err(e) => {
                    return Err(e);
                },
                Ok(cl) => {
                    let ghost clv = cl@;
                    clauses.push(cl);
                    parsed = parsed + 1;
                    proof {
                        assert(cviews(before.push(clauses@[before.len() as int])) =~= cviews(
                            before,
                        ).push(clv));
                        match sp_clauses(ts, self.at(), (num_clauses - parsed) as u64) {
                            Err(_) => {},
                            Ok(p) => {
                                assert((cviews(before) + (seq![clv] + p.0)) =~= (cviews(
                                    before,
                                ).push(clv) + p.0));
                            },
                        }
                    }
                },
            }
        }
        let cur = self.peek;
        match cur {
            Err(e) => {
                if e.kind == ErrorKind::UnexpectedEndOfFile {
                    proof {
                        assert(cviews(clauses@) + Seq::<Seq<Lit>>::empty() =~= cviews(clauses@));
                    }
                    Ok(clauses)
                } else {
                    Err(e)
                }
            },
            Ok(t) => Err(ParseError::new(t.loc, ErrorKind::TooManyClauses)),
        }
    }

    /// Parses one clause: literals up to and including the terminating
    /// zero.
    fn parse_clause(&mut self) -> (r: Result<Clause, ParseError>)
        requires
            old(self).wf(),
            old(self).at() >= 0,
        ensures
            final(self).wf(),
            final(self).inp() == old(self).inp(),
            final(self).at() >= 0,
            match r {
                Ok(cl) => sp_clause(old(self).ts(), old(self).at()) == Ok::<
                    (Seq<Lit>, int),
                    ParseError,
                >((cl@, final(self).at())),
                Err(e) => sp_clause(old(self).ts(), old(self).at()) == Err::<
                    (Seq<Lit>, int),
                    ParseError,
                >(e),
            },
    {
        let ghost ts = self.ts();
        let ghost c0 = self.at();
        let mut lits: Vec<Lit> = Vec::new();
        proof {
            match sp_clause(ts, c0) {
                Err(_) => {},
                Ok(p) => {
                    assert(lits@ + p.0 =~= p.0);
                },
            }
        }
        loop
            invariant
                self.wf(),
                self.inp() == old(self).inp(),
                ts == self.ts(),
                c0 == old(self).at(),
                c0 <= self.at(),
                self.at() >= 0,
                match sp_clause(ts, self.at()) {
                    Ok(p) => sp_clause(ts, c0) == Ok::<(Seq<Lit>, int), ParseError>(
                        (lits@ + p.0, p.1),
                    ),
                    Err(e) => sp_clause(ts, c0) == Err::<(Seq<Lit>, int), ParseError>(e),
                },
            decreases ts.len() - self.at(),
        {
            let ghost before = lits@;
            let cur = self.peek;
            match cur {
                Err(e) => {
                    return Err(e);
                },
                Ok(t) => match t.kind {
                    TokenKind::Zero => match self.expect(TokenKind::Zero) {
                        Err(e) => {
                            return Err(e);
                        },
                        Ok(_) => {
                            proof {
                                assert(lits@ + Seq::<Lit>::empty() =~= lits@);
                            }
                            return Ok(Clause::from_vec(lits));
                        },
                    },
                    TokenKind::Nat(v) => match self.expect(TokenKind::Nat(v)) {
                        Err(e) => {
                            return Err(e);
                        },
                        Ok(_) => {
                            lits.push(Lit { var: v, sign: Sign::Pos });
                            proof {
                                let l = Lit { var: v, sign: Sign::Pos };
                                match sp_clause(ts, self.at()) {
                                    Err(_) => {},
                                    Ok(p) => {
                                        assert((before + (seq![l] + p.0)) =~= (before.push(l)
                                            + p.0));
                                    },
                                }
                            }
                        },
                    },
                    TokenKind::Minus => match self.expect(TokenKind::Minus) {
                        Err(e) => {
                            return Err(e);
                        },
                        Ok(_) => match self.expect_nat() {
                            Err(e) => {
                                return Err(e);
                            },
                            Ok(v) => match self.expect(TokenKind::Nat(v)) {
                                Err(e) => {
                                    return Err(e);
                                },
                                Ok(_) => {
                                    lits.push(Lit { var: v, sign: Sign::Neg });
                                    proof {
                                        let l = Lit { var: v, sign: Sign::Neg };
                                        match sp_clause(ts, self.at()) {
                                            Err(_) => {},
                                            Ok(p) => {
                                                assert((before + (seq![l] + p.0)) =~= (before.push(
                                                    l,
                                                ) + p.0));
                                            },
                                        }
                                    }
                                },
                            },
                        },
                    },
                    _ => {
                        return Err(self.mk_err(ErrorKind::UnexpectedToken));
                    },
                },
            }
        }
    }

    /// Parses one formula, dispatching on the lookahead token.
    fn parse_formula(&mut self) -> (r: Result<Formula, ParseError>)
        requires
            old(self).wf(),
            old(self).at() >= 0,
        ensures
            final(self).wf(),
            final(self).inp() == old(self).inp(),
            final(self).at() >= 0,
            match r {
                Ok(f) => sp_formula(old(self).ts(), old(self).at()) == Ok::<
                    (SpecFormula, int),
                    ParseError,
                >((fview(f), final(self).at())),
                Err(e) => sp_formula(old(self).ts(), old(self).at()) == Err::<
                    (SpecFormula, int),
                    ParseError,
                >(e),
            },
        decreases self.ts().len() - self.at(), 2int,
    {
        let cur = self.peek;
        match cur {
            Err(e) => Err(e),
            Ok(t) => match t.kind {
                TokenKind::Nat(v) => match self.expect(TokenKind::Nat(v)) {
                    Err(e) => Err(e),
                    Ok(_) => Ok(Formula::lit(Lit { var: v, sign: Sign::Pos })),
                },
                TokenKind::Open => self.parse_paren_formula(),
                TokenKind::Plus => self.parse_or_formula(),
                TokenKind::Star => self.parse_and_formula(),
                TokenKind::Minus => self.parse_neg_formula(),
                TokenKind::Eq => self.parse_eq_formula(),
                TokenKind::Ident(Ident::Xor) => self.parse_xor_formula(),
                _ => Err(self.mk_err(ErrorKind::UnexpectedToken)),
            },
        }
    }

    /// Parses formulas until the closing parenthesis of the surrounding
    /// list (which is left for the caller).
    fn parse_formula_list(&mut self) -> (r: Result<Vec<Formula>, ParseError>)
        requires
            old(self).wf(),
            old(self).at() >= 0,
        ensures
            final(self).wf(),
            final(self).inp() == old(self).inp(),
            final(self).at() >= 0,
            match r {
                Ok(fs) => sp_formula_list(old(self).ts(), old(self).at()) == Ok::<
                    (Seq<SpecFormula>, int),
                    ParseError,
                >((fviews(fs@), final(self).at())),
                Err(e) => sp_formula_list(old(self).ts(), old(self).at()) == Err::<
                    (Seq<SpecFormula>, int),
                    ParseError,
                >(e),
            },
        decreases self.ts().len() - self.at(), 3int,
    {
        let ghost ts = self.ts();
        let ghost c0 = self.at();
        let mut formulas: Vec<Formula> = Vec::new();
        proof {
            assert(fviews(formulas@) =~= Seq::<SpecFormula>::empty());
            match sp_formula_list(ts, c0) {
                Err(_) => {},
                Ok(p) => {
                    assert(fviews(formulas@) + p.0 =~= p.0);
                },
            }
        }
        loop
            invariant
                self.wf(),
                self.inp() == old(self).inp(),
                ts == self.ts(),
                c0 == old(self).at(),
                c0 <= self.at(),
                self.at() >= 0,
                match sp_formula_list(ts, self.at()) {
                    Ok(p) => sp_formula_list(ts, c0) == Ok::<(Seq<SpecFormula>, int), ParseError>(
                        (fviews(formulas@) + p.0, p.1),
                    ),
                    Err(e) => sp_formula_list(ts, c0) == Err::<(Seq<SpecFormula>, int), ParseError>(
                        e,
                    ),
                },
            decreases ts.len() - self.at(),
        {
            let ghost before = formulas@;
            let ghost c_pre = self.at();
            let cur = self.peek;
            match cur {
                Err(e) => {
                    return Err(e);
                },
                Ok(t) => {
                    if t.kind == TokenKind::Close {
                        proof {
                            assert(fviews(formulas@) + Seq::<SpecFormula>::empty() =~= fviews(
                                formulas@,
                            ));
                        }
                        return Ok(formulas);
                    } else {
                        match self.parse_formula() {
                            Err(e) => {
                                return Err(e);
                            },
                            Ok(f) => {
                                proof {
                                    lemma_sp_formula_progress(ts, c_pre);
                                    lemma_fviews_push(before, f);
                                }
                                formulas.push(f);
                                proof {
                                    match sp_formula_list(ts, self.at()) {
                                        Err(_) => {},
                                        Ok(p) => {
                                            assert((fviews(before) + (seq![fview(f)] + p.0)) =~= (
                                            fviews(before).push(fview(f)) + p.0));
                                        },
                                    }
                                }
                            },
                        }
                    }
                },
            }
        }
    }

    /// Parses a parenthesized formula list.
    fn parse_formula_params(&mut self) -> (r: Result<Vec<Formula>, ParseError>)
        requires
            old(self).wf(),
            old(self).at() >= 0,
        ensures
            final(self).wf(),
            final(self).inp() == old(self).inp(),
            final(self).at() >= 0,
            match r {
                Ok(fs) => sp_params(old(self).ts(), old(self).at()) == Ok::<
                    (Seq<SpecFormula>, int),
                    ParseError,
                >((fviews(fs@), final(self).at())),
                Err(e) => sp_params(old(self).ts(), old(self).at()) == Err::<
                    (Seq<SpecFormula>, int),
                    ParseError,
                >(e),
            },
        decreases self.ts().len() - self.at(), 1int,
    {
        match self.expect(TokenKind::Open) {
            Err(e) => Err(e),
            Ok(_) => match self.parse_formula_list() {
                Err(e) => Err(e),
                Ok(params) => match self.expect(TokenKind::Close) {
                    Err(e) => Err(e),
                    Ok(_) => Ok(params),
                },
            },
        }
    }

    /// Parses `( formula )`.
    fn parse_paren_formula(&mut self) -> (r: Result<Formula, ParseError>)
        requires
            old(self).wf(),
            old(self).at() >= 0,
            item_at(old(self).ts(), old(self).at()) matches Ok(t) && t.kind == TokenKind::Open,
        ensures
            final(self).wf(),
            final(self).inp() == old(self).inp(),
            final(self).at() >= 0,
            match r {
                Ok(f) => sp_formula(old(self).ts(), old(self).at()) == Ok::<
                    (SpecFormula, int),
                    ParseError,
                >((fview(f), final(self).at())),
                Err(e) => sp_formula(old(self).ts(), old(self).at()) == Err::<
                    (SpecFormula, int),
                    ParseError,
                >(e),
            },
        decreases self.ts().len() - self.at(), 1int,
    {
        match self.expect(TokenKind::Open) {
            Err(e) => Err(e),
            Ok(_) => match self.parse_formula() {
                Err(e) => Err(e),
                Ok(f) => match self.expect(TokenKind::Close) {
                    Err(e) => Err(e),
                    Ok(_) => Ok(Formula::paren(f)),
                },
            },
        }
    }

    /// Parses `- ( formula )` or `- NAT`.
    fn parse_neg_formula(&mut self) -> (r: Result<Formula, ParseError>)
        requires
            old(self).wf(),
            old(self).at() >= 0,
            item_at(old(self).ts(), old(self).at()) matches Ok(t) && t.kind == TokenKind::Minus,
        ensures
            final(self).wf(),
            final(self).inp() == old(self).inp(),
            final(self).at() >= 0,
            match r {
                Ok(f) => sp_formula(old(self).ts(), old(self).at()) == Ok::<
                    (SpecFormula, int),
                    ParseError,
                >((fview(f), final(self).at())),
                Err(e) => sp_formula(old(self).ts(), old(self).at()) == Err::<
                    (SpecFormula, int),
                    ParseError,
                >(e),
            },
        decreases self.ts().len() - self.at(), 1int,
    {
        match self.expect(TokenKind::Minus) {
            Err(e) => Err(e),
            Ok(_) => {
                let cur = self.peek;
                match cur {
                    Err(e) => Err(e),
                    Ok(t) => match t.kind {
                        TokenKind::Open => match self.expect(TokenKind::Open) {
                            Err(e) => Err(e),
                            Ok(_) => match self.parse_formula() {
                                Err(e) => Err(e),
                                Ok(f) => match self.expect(TokenKind::Close) {
                                    Err(e) => Err(e),
                                    Ok(_) => Ok(Formula::neg(f)),
                                },
                            },
                        },
                        TokenKind::Nat(v) => match self.expect(TokenKind::Nat(v)) {
                            Err(e) => Err(e),
                            Ok(_) => Ok(Formula::lit(Lit { var: v, sign: Sign::Neg })),
                        },
                        _ => Err(self.mk_err(ErrorKind::UnexpectedToken)),
                    },
                }
            },
        }
    }

    /// Parses `+ params` into a disjunction.
    fn parse_or_formula(&mut self) -> (r: Result<Formula, ParseError>)
        requires
            old(self).wf(),
            old(self).at() >= 0,
            item_at(old(self).ts(), old(self).at()) matches Ok(t) && t.kind == TokenKind::Plus,
        ensures
            final(self).wf(),
            final(self).inp() == old(self).inp(),
            final(self).at() >= 0,
            match r {
                Ok(f) => sp_formula(old(self).ts(), old(self).at()) == Ok::<
                    (SpecFormula, int),
                    ParseError,
                >((fview(f), final(self).at())),
                Err(e) => sp_formula(old(self).ts(), old(self).at()) == Err::<
                    (SpecFormula, int),
                    ParseError,
                >(e),
            },
        decreases self.ts().len() - self.at(), 1int,
    {
        match self.expect(TokenKind::Plus) {
            Err(e) => Err(e),
            Ok(_) => match self.parse_formula_params() {
                Err(e) => Err(e),
                Ok(params) => Ok(Formula::or(params)),
            },
        }
    }

    /// Parses `* params` into a conjunction.
    fn parse_and_formula(&mut self) -> (r: Result<Formula, ParseError>)
        requires
            old(self).wf(),
            old(self).at() >= 0,
            item_at(old(self).ts(), old(self).at()) matches Ok(t) && t.kind == TokenKind::Star,
        ensures
            final(self).wf(),
            final(self).inp() == old(self).inp(),
            final(self).at() >= 0,
            match r {
                Ok(f) => sp_formula(old(self).ts(), old(self).at()) == Ok::<
                    (SpecFormula, int),
                    ParseError,
                >((fview(f), final(self).at())),
                Err(e) => sp_formula(old(self).ts(), old(self).at()) == Err::<
                    (SpecFormula, int),
                    ParseError,
                >(e),
            },
        decreases self.ts().len() - self.at(), 1int,
    {
        match self.expect(TokenKind::Star) {
            Err(e) => Err(e),
            Ok(_) => match self.parse_formula_params() {
                Err(e) => Err(e),
                Ok(params) => Ok(Formula::and(params)),
            },
        }
    }

    /// Parses `= params` into an equivalence.
    fn parse_eq_formula(&mut self) -> (r: Result<Formula, ParseError>)
        requires
            old(self).wf(),
            old(self).at() >= 0,
            item_at(old(self).ts(), old(self).at()) matches Ok(t) && t.kind == TokenKind::Eq,
        ensures
            final(self).wf(),
            final(self).inp() == old(self).inp(),
            final(self).at() >= 0,
            match r {
                Ok(f) => sp_formula(old(self).ts(), old(self).at()) == Ok::<
                    (SpecFormula, int),
                    ParseError,
                >((fview(f), final(self).at())),
                Err(e) => sp_formula(old(self).ts(), old(self).at()) == Err::<
                    (SpecFormula, int),
                    ParseError,
                >(e),
            },
        decreases self.ts().len() - self.at(), 1int,
    {
        match self.expect(TokenKind::Eq) {
            Err(e) => Err(e),
            Ok(_) => match self.parse_formula_params() {
                Err(e) => Err(e),
                Ok(params) => Ok(Formula::eq(params)),
            },
        }
    }

    /// Parses `xor params` into an exclusive-or.
    fn parse_xor_formula(&mut self) -> (r: Result<Formula, ParseError>)
        requires
            old(self).wf(),
            old(self).at() >= 0,
            item_at(old(self).ts(), old(self).at()) matches Ok(t) && t.kind == TokenKind::Ident(
                Ident::Xor,
            ),
        ensures
            final(self).wf(),
            final(self).inp() == old(self).inp(),
            final(self).at() >= 0,
            match r {
                Ok(f) => sp_formula(old(self).ts(), old(self).at()) == Ok::<
                    (SpecFormula, int),
                    ParseError,
                >((fview(f), final(self).at())),
                Err(e) => sp_formula(old(self).ts(), old(self).at()) == Err::<
                    (SpecFormula, int),
                    ParseError,
                >(e),
            },
        decreases self.ts().len() - self.at(), 1int,
    {
        match self.expect(TokenKind::Ident(Ident::Xor)) {
            Err(e) => Err(e),
            Ok(_) => match self.parse_formula_params() {
                Err(e) => Err(e),
                Ok(params) => Ok(Formula::xor(params)),
            },
        }
    }

    /// Parses the whole input into an instance: pulls the first token and
    /// parses the problem. The parser must be fresh; a finished parse
    /// cannot be resumed or restarted.
    pub fn parse_dimacs(&mut self) -> (r: Result<Instance, ParseError>)
        requires
            old(self).wf(),
            old(self).fresh(),
        ensures
            final(self).wf(),
            match r {
                Ok(inst) => spec_parse_dimacs(old(self).inp()) == Ok::<SpecInstance, ParseError>(
                    inst@,
                ),
                Err(e) => spec_parse_dimacs(old(self).inp()) == Err::<SpecInstance, ParseError>(e),
            },
    {
        self.consume();
        self.parse_header()
    }
}

/// Parses a complete DIMACS problem text into an instance, or fails with
/// the position and kind of the first error.
pub fn parse_dimacs(input: Vec<u8>) -> (r: Result<Instance, ParseError>)
    requires
        input@.len() < usize::MAX,
    ensures
        match r {
            Ok(inst) => spec_parse_dimacs(input@) == Ok::<SpecInstance, ParseError>(inst@),
            Err(e) => spec_parse_dimacs(input@) == Err::<SpecInstance, ParseError>(e),
        },
{
    let mut parser = Parser::from(input);
    parser.parse_dimacs()
}

} // verus!
