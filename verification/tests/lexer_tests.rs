use dimacs::errors::Loc;
use dimacs::errors::ParseError;
use dimacs::lexer::Lexer;
use dimacs::lexer::Token;
use dimacs::lexer::TokenKind;
use dimacs::lexer::ValidLexer;

use dimacs::errors::ErrorKind::{InvalidTokenStart, NumberOverflow, UnknownKeyword};
use dimacs::lexer::Ident::{Cnf, Problem, Sat, Sate, Satex, Satx, Xor};
use dimacs::lexer::TokenKind::{Close, Comment, Minus, Nat, Open, Plus, Star, Zero};

fn lexer_of(sample: &str) -> Lexer {
    Lexer::from(sample.as_bytes().to_vec())
}

#[test]
fn lexer_simple_cnf() {
    let sample = "\n\t\t\tc Sample DIMACS .cnf file\n\t\t\tc holding some information\n\t\t\tc and trying to be some\n\t\t\tc kind of a test.\n\t\t\tp cnf 42 1337\n\t\t\t1 2 0\n\t\t\t-3 4 0\n\t\t\t5 -6 7 0\n\t\t\t-7 -8 -9 0";
    let mut lexer = lexer_of(sample);

    assert_eq!(lexer.next_token(), Some(Ok(Token::new(Loc::new(2, 4), Comment))));
    assert_eq!(lexer.next_token(), Some(Ok(Token::new(Loc::new(3, 4), Comment))));
    assert_eq!(lexer.next_token(), Some(Ok(Token::new(Loc::new(4, 4), Comment))));
    assert_eq!(lexer.next_token(), Some(Ok(Token::new(Loc::new(5, 4), Comment))));

    assert_eq!(lexer.next_token(), Some(Ok(Token::new(Loc::new(6, 4), TokenKind::Ident(Problem)))));
    assert_eq!(lexer.next_token(), Some(Ok(Token::new(Loc::new(6, 6), TokenKind::Ident(Cnf)))));
    assert_eq!(lexer.next_token(), Some(Ok(Token::new(Loc::new(6, 10), Nat(42)))));
    assert_eq!(lexer.next_token(), Some(Ok(Token::new(Loc::new(6, 13), Nat(1337)))));

    assert_eq!(lexer.next_token(), Some(Ok(Token::new(Loc::new(7, 4), Nat(1)))));
    assert_eq!(lexer.next_token(), Some(Ok(Token::new(Loc::new(7, 6), Nat(2)))));
    assert_eq!(lexer.next_token(), Some(Ok(Token::new(Loc::new(7, 8), Zero))));

    assert_eq!(lexer.next_token(), Some(Ok(Token::new(Loc::new(8, 4), Minus))));
    assert_eq!(lexer.next_token(), Some(Ok(Token::new(Loc::new(8, 5), Nat(3)))));
    assert_eq!(lexer.next_token(), Some(Ok(Token::new(Loc::new(8, 7), Nat(4)))));
    assert_eq!(lexer.next_token(), Some(Ok(Token::new(Loc::new(8, 9), Zero))));

    assert_eq!(lexer.next_token(), Some(Ok(Token::new(Loc::new(9, 4), Nat(5)))));
    assert_eq!(lexer.next_token(), Some(Ok(Token::new(Loc::new(9, 6), Minus))));
    assert_eq!(lexer.next_token(), Some(Ok(Token::new(Loc::new(9, 7), Nat(6)))));
    assert_eq!(lexer.next_token(), Some(Ok(Token::new(Loc::new(9, 9), Nat(7)))));
    assert_eq!(lexer.next_token(), Some(Ok(Token::new(Loc::new(9, 11), Zero))));

    assert_eq!(lexer.next_token(), Some(Ok(Token::new(Loc::new(10, 4), Minus))));
    assert_eq!(lexer.next_token(), Some(Ok(Token::new(Loc::new(10, 5), Nat(7)))));
    assert_eq!(lexer.next_token(), Some(Ok(Token::new(Loc::new(10, 7), Minus))));
    assert_eq!(lexer.next_token(), Some(Ok(Token::new(Loc::new(10, 8), Nat(8)))));
    assert_eq!(lexer.next_token(), Some(Ok(Token::new(Loc::new(10, 10), Minus))));
    assert_eq!(lexer.next_token(), Some(Ok(Token::new(Loc::new(10, 11), Nat(9)))));
    assert_eq!(lexer.next_token(), Some(Ok(Token::new(Loc::new(10, 13), Zero))));

    assert_eq!(lexer.next_token(), None);
}

#[test]
fn lexer_simple_sat() {
    let sample = "\n\t\t\tc Sample DIMACS .sat file\n\t\t\tp sat 42 1337\n\t\t\t(*(+(1 3 -4)\n\t\t\t+(4)\n\t\t\t+(2 3)))";
    let mut lexer = lexer_of(sample);

    assert_eq!(lexer.next_token(), Some(Ok(Token::new(Loc::new(2, 4), Comment))));

    assert_eq!(lexer.next_token(), Some(Ok(Token::new(Loc::new(3, 4), TokenKind::Ident(Problem)))));
    assert_eq!(lexer.next_token(), Some(Ok(Token::new(Loc::new(3, 6), TokenKind::Ident(Sat)))));
    assert_eq!(lexer.next_token(), Some(Ok(Token::new(Loc::new(3, 10), Nat(42)))));
    assert_eq!(lexer.next_token(), Some(Ok(Token::new(Loc::new(3, 13), Nat(1337)))));

    assert_eq!(lexer.next_token(), Some(Ok(Token::new(Loc::new(4, 4), Open))));
    assert_eq!(lexer.next_token(), Some(Ok(Token::new(Loc::new(4, 5), Star))));
    assert_eq!(lexer.next_token(), Some(Ok(Token::new(Loc::new(4, 6), Open))));
    assert_eq!(lexer.next_token(), Some(Ok(Token::new(Loc::new(4, 7), Plus))));
    assert_eq!(lexer.next_token(), Some(Ok(Token::new(Loc::new(4, 8), Open))));
    assert_eq!(lexer.next_token(), Some(Ok(Token::new(Loc::new(4, 9), Nat(1)))));
    assert_eq!(lexer.next_token(), Some(Ok(Token::new(Loc::new(4, 11), Nat(3)))));
    assert_eq!(lexer.next_token(), Some(Ok(Token::new(Loc::new(4, 13), Minus))));
    assert_eq!(lexer.next_token(), Some(Ok(Token::new(Loc::new(4, 14), Nat(4)))));
    assert_eq!(lexer.next_token(), Some(Ok(Token::new(Loc::new(4, 15), Close))));

    assert_eq!(lexer.next_token(), Some(Ok(Token::new(Loc::new(5, 4), Plus))));
    assert_eq!(lexer.next_token(), Some(Ok(Token::new(Loc::new(5, 5), Open))));
    assert_eq!(lexer.next_token(), Some(Ok(Token::new(Loc::new(5, 6), Nat(4)))));
    assert_eq!(lexer.next_token(), Some(Ok(Token::new(Loc::new(5, 7), Close))));

    assert_eq!(lexer.next_token(), Some(Ok(Token::new(Loc::new(6, 4), Plus))));
    assert_eq!(lexer.next_token(), Some(Ok(Token::new(Loc::new(6, 5), Open))));
    assert_eq!(lexer.next_token(), Some(Ok(Token::new(Loc::new(6, 6), Nat(2)))));
    assert_eq!(lexer.next_token(), Some(Ok(Token::new(Loc::new(6, 8), Nat(3)))));
    assert_eq!(lexer.next_token(), Some(Ok(Token::new(Loc::new(6, 9), Close))));
    assert_eq!(lexer.next_token(), Some(Ok(Token::new(Loc::new(6, 10), Close))));
    assert_eq!(lexer.next_token(), Some(Ok(Token::new(Loc::new(6, 11), Close))));

    assert_eq!(lexer.next_token(), None);
}

#[test]
fn tricky_1() {
    let sample = "(1-2)";
    let mut lexer = lexer_of(sample);

    assert_eq!(lexer.next_token(), Some(Ok(Token::new(Loc::new(1, 1), Open))));
    assert_eq!(lexer.next_token(), Some(Ok(Token::new(Loc::new(1, 2), Nat(1)))));
    assert_eq!(lexer.next_token(), Some(Ok(Token::new(Loc::new(1, 3), Minus))));
    assert_eq!(lexer.next_token(), Some(Ok(Token::new(Loc::new(1, 4), Nat(2)))));
    assert_eq!(lexer.next_token(), Some(Ok(Token::new(Loc::new(1, 5), Close))));

    assert_eq!(lexer.next_token(), None);
}

#[test]
fn all_idents() {
    let sample = "p cnf sat satx sate satex xor";
    let mut lexer = lexer_of(sample);

    assert_eq!(lexer.next_token(), Some(Ok(Token::new(Loc::new(1, 1), TokenKind::Ident(Problem)))));
    assert_eq!(lexer.next_token(), Some(Ok(Token::new(Loc::new(1, 3), TokenKind::Ident(Cnf)))));
    assert_eq!(lexer.next_token(), Some(Ok(Token::new(Loc::new(1, 7), TokenKind::Ident(Sat)))));
    assert_eq!(lexer.next_token(), Some(Ok(Token::new(Loc::new(1, 11), TokenKind::Ident(Satx)))));
    assert_eq!(lexer.next_token(), Some(Ok(Token::new(Loc::new(1, 16), TokenKind::Ident(Sate)))));
    assert_eq!(lexer.next_token(), Some(Ok(Token::new(Loc::new(1, 21), TokenKind::Ident(Satex)))));
    assert_eq!(lexer.next_token(), Some(Ok(Token::new(Loc::new(1, 27), TokenKind::Ident(Xor)))));

    assert_eq!(lexer.next_token(), None);
}

#[test]
fn all_ops() {
    let sample = "()+-*=";
    let mut lexer = lexer_of(sample);

    assert_eq!(lexer.next_token(), Some(Ok(Token::new(Loc::new(1, 1), Open))));
    assert_eq!(lexer.next_token(), Some(Ok(Token::new(Loc::new(1, 2), Close))));
    assert_eq!(lexer.next_token(), Some(Ok(Token::new(Loc::new(1, 3), Plus))));
    assert_eq!(lexer.next_token(), Some(Ok(Token::new(Loc::new(1, 4), Minus))));
    assert_eq!(lexer.next_token(), Some(Ok(Token::new(Loc::new(1, 5), Star))));
    assert_eq!(lexer.next_token(), Some(Ok(Token::new(Loc::new(1, 6), TokenKind::Eq))));

    assert_eq!(lexer.next_token(), None);
}

#[test]
fn invalid_token_start() {
    let sample = "# foo Big";
    let mut lexer = lexer_of(sample);

    assert_eq!(
        lexer.next_token(),
        Some(Err(ParseError::new(Loc::new(1, 1), InvalidTokenStart)))
    );
    assert_eq!(
        lexer.next_token(),
        Some(Err(ParseError::new(Loc::new(1, 3), UnknownKeyword)))
    );
    assert_eq!(
        lexer.next_token(),
        Some(Err(ParseError::new(Loc::new(1, 7), UnknownKeyword)))
    );

    assert_eq!(lexer.next_token(), None);
}

#[test]
fn only_comments() {
    let sample = "\n\t\t\tc This is a comment.\n\t\t\tc Just like this.\n\t\t\tc That has to be filtered.\n\t\t\tc But not the following ...\n\t\t\tc Filter this, too!\n\t\t\tc And this!";
    let mut lexer = lexer_of(sample);

    assert_eq!(lexer.next_token(), Some(Ok(Token::new(Loc::new(2, 4), Comment))));
    assert_eq!(lexer.next_token(), Some(Ok(Token::new(Loc::new(3, 4), Comment))));
    assert_eq!(lexer.next_token(), Some(Ok(Token::new(Loc::new(4, 4), Comment))));
    assert_eq!(lexer.next_token(), Some(Ok(Token::new(Loc::new(5, 4), Comment))));
    assert_eq!(lexer.next_token(), Some(Ok(Token::new(Loc::new(6, 4), Comment))));
    assert_eq!(lexer.next_token(), Some(Ok(Token::new(Loc::new(7, 4), Comment))));

    assert_eq!(lexer.next_token(), None);
}

#[test]
fn filter_valid() {
    let sample = "\n\t\t\tc This is a comment.\n\t\t\tc Just like this.\n\t\t\tc That has to be filtered.\n\t\t\tc But not the following ...\n\t\t\t42\n\t\t\tc Filter this, too!\n\t\t\tINVALID\n\t\t\tc And this!\n\t\t";
    let mut lexer = ValidLexer::from(sample.as_bytes().to_vec());

    assert_eq!(lexer.next_token(), Some(Ok(Token::new(Loc::new(6, 4), Nat(42)))));
    assert_eq!(
        lexer.next_token(),
        Some(Err(ParseError::new(Loc::new(8, 4), UnknownKeyword)))
    );

    assert_eq!(lexer.next_token(), None);
}

#[test]
fn leading_zero_splits() {
    let mut lexer = lexer_of("01");

    assert_eq!(lexer.next_token(), Some(Ok(Token::new(Loc::new(1, 1), Zero))));
    assert_eq!(lexer.next_token(), Some(Ok(Token::new(Loc::new(1, 2), Nat(1)))));
    assert_eq!(lexer.next_token(), None);
}

#[test]
fn invalid_byte_resumes() {
    let mut lexer = lexer_of("#1");

    assert_eq!(
        lexer.next_token(),
        Some(Err(ParseError::new(Loc::new(1, 1), InvalidTokenStart)))
    );
    assert_eq!(lexer.next_token(), Some(Ok(Token::new(Loc::new(1, 2), Nat(1)))));
    assert_eq!(lexer.next_token(), None);
}

#[test]
fn largest_number_fits() {
    let mut lexer = lexer_of("18446744073709551615");

    assert_eq!(
        lexer.next_token(),
        Some(Ok(Token::new(Loc::new(1, 1), Nat(18446744073709551615))))
    );
    assert_eq!(lexer.next_token(), None);
}

#[test]
fn number_overflow() {
    let mut lexer = lexer_of("18446744073709551616 7");

    assert_eq!(
        lexer.next_token(),
        Some(Err(ParseError::new(Loc::new(1, 1), NumberOverflow)))
    );
    assert_eq!(lexer.next_token(), Some(Ok(Token::new(Loc::new(1, 22), Nat(7)))));
    assert_eq!(lexer.next_token(), None);
}

#[test]
fn is_relevant_filters_only_comments() {
    assert!(!Comment.is_relevant());
    assert!(Nat(1).is_relevant());
    assert!(Zero.is_relevant());
    assert!(Plus.is_relevant());
    assert!(Minus.is_relevant());
    assert!(Star.is_relevant());
    assert!(TokenKind::Eq.is_relevant());
    assert!(Open.is_relevant());
    assert!(Close.is_relevant());
    assert!(TokenKind::Ident(Xor).is_relevant());
    assert!(TokenKind::EndOfFile.is_relevant());
}
