use dimacs::errors::Loc;
use dimacs::errors::ParseError;
use dimacs::items::Clause;
use dimacs::items::Extensions;
use dimacs::items::Formula;
use dimacs::items::Instance;
use dimacs::items::Lit;
use dimacs::items::Sign;
use dimacs::parser::parse_dimacs;

use dimacs::errors::ErrorKind::{
    NumberOverflow, TooManyClauses, UnexpectedEndOfFile, UnexpectedToken, UnknownKeyword,
};

fn parse(sample: &str) -> Result<Instance, ParseError> {
    parse_dimacs(sample.as_bytes().to_vec())
}

fn clause(lits: Vec<i64>) -> Clause {
    Clause::from_vec(lits.into_iter().map(Lit::from_i64).collect())
}

#[test]
fn parser_simple_cnf() {
    // The header declares 1337 clauses but only four follow, so the parse
    // runs out of input while reading the fifth clause, at the position of
    // the last token it saw.
    let sample = "\n\t\t\tc Sample DIMACS .cnf file\n\t\t\tc holding some information\n\t\t\tc and trying to be some\n\t\t\tc kind of a test.\n\t\t\tp cnf 42 1337\n\t\t\t1 2 0\n\t\t\t-3 4 0\n\t\t\t5 -6 7 0\n\t\t\t-7 -8 -9 0";
    let parsed = parse(sample);
    assert_eq!(parsed, Err(ParseError::new(Loc::new(10, 13), UnexpectedEndOfFile)));
}

#[test]
fn simple_cnf_complete() {
    let sample = "\n\t\t\tc Sample DIMACS .cnf file\n\t\t\tc holding some information\n\t\t\tc and trying to be some\n\t\t\tc kind of a test.\n\t\t\tp cnf 42 4\n\t\t\t1 2 0\n\t\t\t-3 4 0\n\t\t\t5 -6 7 0\n\t\t\t-7 -8 -9 0";
    let parsed = parse(sample).expect("valid .cnf");
    let expected = Instance::cnf(
        42,
        vec![
            clause(vec![1, 2]),
            clause(vec![-3, 4]),
            clause(vec![5, -6, 7]),
            clause(vec![-7, -8, -9]),
        ],
    );
    assert_eq!(parsed, expected);
}

#[test]
fn parser_simple_sat() {
    let sample = "\n\t\t\tc Sample DIMACS .sat file\n\t\t\tp sat 42\n\t\t\t(*(+(1 3 -4)\n\t\t\t+(4)\n\t\t\t+(2 3)))";
    let parsed = parse(sample).expect("valid .sat");
    let expected = Instance::sat(
        42,
        Extensions::none(),
        Formula::paren(Formula::and(vec![
            Formula::or(vec![
                Formula::lit(Lit::from_i64(1)),
                Formula::lit(Lit::from_i64(3)),
                Formula::lit(Lit::from_i64(-4)),
            ]),
            Formula::or(vec![Formula::lit(Lit::from_i64(4))]),
            Formula::or(vec![
                Formula::lit(Lit::from_i64(2)),
                Formula::lit(Lit::from_i64(3)),
            ]),
        ])),
    );
    assert_eq!(parsed, expected);
}

#[test]
fn two_clause_cnf() {
    let parsed = parse("p cnf 2 2\n1 2 0\n-1 -2 0").expect("valid .cnf");
    let expected = Instance::cnf(2, vec![clause(vec![1, 2]), clause(vec![-1, -2])]);
    assert_eq!(parsed, expected);
}

#[test]
fn three_var_sat() {
    let parsed = parse("p sat 3\n(*(+(1 3 -2)\n+(2)))").expect("valid .sat");
    let expected = Instance::sat(
        3,
        Extensions::none(),
        Formula::paren(Formula::and(vec![
            Formula::or(vec![
                Formula::lit(Lit::from_i64(1)),
                Formula::lit(Lit::from_i64(3)),
                Formula::lit(Lit::from_i64(-2)),
            ]),
            Formula::or(vec![Formula::lit(Lit::from_i64(2))]),
        ])),
    );
    assert_eq!(parsed, expected);
}

#[test]
fn comment_is_skipped() {
    let parsed = parse("c hi\np cnf 1 1\n1 0").expect("valid .cnf");
    let expected = Instance::cnf(1, vec![clause(vec![1])]);
    assert_eq!(parsed, expected);
}

#[test]
fn malformed_keyword() {
    let parsed = parse("p satq 3\n(1)");
    assert_eq!(parsed, Err(ParseError::new(Loc::new(1, 3), UnknownKeyword)));
}

#[test]
fn sat_extensions_map() {
    let eq_only = parse("p sate 1\n1").expect("valid sate");
    assert_eq!(
        eq_only,
        Instance::sat(1, Extensions::new(true, false), Formula::lit(Lit::from_i64(1)))
    );

    let xor_only = parse("p satx 1\nxor(1 2)").expect("valid satx");
    assert_eq!(
        xor_only,
        Instance::sat(
            1,
            Extensions::new(false, true),
            Formula::xor(vec![
                Formula::lit(Lit::from_i64(1)),
                Formula::lit(Lit::from_i64(2)),
            ])
        )
    );

    let both = parse("p satex 1\n=(1 2)").expect("valid satex");
    assert_eq!(
        both,
        Instance::sat(
            1,
            Extensions::new(true, true),
            Formula::eq(vec![
                Formula::lit(Lit::from_i64(1)),
                Formula::lit(Lit::from_i64(2)),
            ])
        )
    );
}

#[test]
fn negative_literal_formula() {
    let parsed = parse("p sat 2\n-2").expect("valid .sat");
    assert_eq!(
        parsed,
        Instance::sat(2, Extensions::none(), Formula::lit(Lit::from_i64(-2)))
    );
}

#[test]
fn negated_paren_formula() {
    let parsed = parse("p sat 1\n-(1)").expect("valid .sat");
    assert_eq!(
        parsed,
        Instance::sat(1, Extensions::none(), Formula::neg(Formula::lit(Lit::from_i64(1))))
    );
}

#[test]
fn minus_then_operator_fails() {
    let parsed = parse("p sat 1\n-*");
    assert_eq!(parsed, Err(ParseError::new(Loc::new(2, 2), UnexpectedToken)));
}

#[test]
fn too_many_clauses() {
    let parsed = parse("p cnf 2 1\n1 0\n2 0");
    assert_eq!(parsed, Err(ParseError::new(Loc::new(3, 1), TooManyClauses)));
}

#[test]
fn too_few_clauses() {
    let parsed = parse("p cnf 2 3\n1 0\n2 0");
    assert_eq!(parsed, Err(ParseError::new(Loc::new(3, 3), UnexpectedEndOfFile)));
}

#[test]
fn empty_input() {
    let parsed = parse("");
    assert_eq!(parsed, Err(ParseError::new(Loc::new(0, 0), UnexpectedEndOfFile)));
}

#[test]
fn missing_problem_keyword() {
    let parsed = parse("1 2");
    assert_eq!(parsed, Err(ParseError::new(Loc::new(1, 1), UnexpectedToken)));
}

#[test]
fn bad_problem_kind() {
    let parsed = parse("p 1");
    assert_eq!(parsed, Err(ParseError::new(Loc::new(1, 3), UnexpectedToken)));
}

#[test]
fn number_overflow_in_header() {
    let parsed = parse("p cnf 18446744073709551616 1");
    assert_eq!(parsed, Err(ParseError::new(Loc::new(1, 7), NumberOverflow)));
}

#[test]
fn operator_in_clause_fails() {
    let parsed = parse("p cnf 1 1\n+ 0");
    assert_eq!(parsed, Err(ParseError::new(Loc::new(2, 1), UnexpectedToken)));
}

#[test]
fn zero_count_is_not_a_number() {
    // `0` lexes as the clause-terminating `Zero` token, never as a number,
    // so it cannot serve as a declared count.
    let parsed = parse("p cnf 3 0");
    assert_eq!(parsed, Err(ParseError::new(Loc::new(1, 9), UnexpectedToken)));
}

#[test]
fn literal_constructor_signs() {
    assert_eq!(Lit::from_i64(5), Lit { var: 5, sign: Sign::Pos });
    assert_eq!(Lit::from_i64(-3), Lit { var: 3, sign: Sign::Neg });
    assert_eq!(Lit::from_i64(5).var(), 5);
    assert_eq!(Lit::from_i64(-3).sign(), Sign::Neg);
}

#[test]
fn clause_keeps_order_and_duplicates() {
    let c = clause(vec![2, 1, 2, -2]);
    assert_eq!(c.len(), 4);
    assert_eq!(
        c,
        Clause::from_vec(vec![
            Lit { var: 2, sign: Sign::Pos },
            Lit { var: 1, sign: Sign::Pos },
            Lit { var: 2, sign: Sign::Pos },
            Lit { var: 2, sign: Sign::Neg },
        ])
    );
}
