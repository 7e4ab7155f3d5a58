use triangle_lang::codegen::{decimal, generate, get_num, prolog_code, scheme_code, OutputMode};
use triangle_lang::grammar::{find_syntax_error, parse, SyntaxError};
use triangle_lang::lexer::{digit_rx, lex, LexError};
use triangle_lang::pipeline::{translate, TranslateError};
use triangle_lang::token::{Lexeme, Node, Token};

const SAMPLE: &str = "a = point(1, 2); b = point(3, 4); c = point(5, 6).";

const PREDICATES: [&str; 10] = [
    "line",
    "triangle",
    "vertical",
    "horizontal",
    "equilateral",
    "isosceles",
    "right",
    "scalene",
    "acute",
    "obtuse",
];

fn expected_prolog(rhs: &str) -> String {
    let mut out = String::new();
    for p in PREDICATES.iter() {
        out.push_str(&format!("query({}{})\n", p, rhs));
    }
    out.push_str("writeln(T) :- write(T), nl.\n");
    out.push_str("main:- forall(query(Q), Q-> (writeln(‘yes’)) ; (writeln(‘no’))),\n");
    out.push_str("      halt.");
    out
}

fn run(src: &str, mode: OutputMode) -> Result<String, TranslateError> {
    translate(&src.to_string(), mode)
}

#[test]
fn scheme_scenario() {
    assert_eq!(
        run(SAMPLE, OutputMode::Scheme).unwrap(),
        "(calculate-triangle (make-point 1 2) (make-point 3 4) (make-point 5 6))"
    );
}

#[test]
fn prolog_scenario() {
    let out = run(SAMPLE, OutputMode::Prolog).unwrap();
    assert_eq!(out, expected_prolog("(point2d(1,2), point2d(3,4), point2d(5, 6))"));
    assert_eq!(out.lines().count(), 13);
    assert!(out.starts_with("query(line(point2d(1,2), point2d(3,4), point2d(5, 6)))\n"));
}

#[test]
fn lex_gives_twenty_seven_tokens() {
    let toks = lex(&SAMPLE.to_string()).unwrap();
    assert_eq!(toks.len(), 27);
    assert!(parse(&toks));
    assert_eq!(find_syntax_error(&toks), None);
    assert_eq!(toks[0].name, Token::ID);
    assert_eq!(toks[2].name, Token::POINT);
    assert_eq!(toks[26].name, Token::PERIOD);
    assert!(matches!(&toks[0].data, Lexeme::_ID(s) if s == "a"));
    assert!(matches!(&toks[2].data, Lexeme::_POINT(s) if s == "point"));
}

#[test]
fn coordinates_decode_to_their_values() {
    let src = "first = point(0, 4294967295); second = point(007, 120); third = point(99, 1000000).";
    let toks = lex(&src.to_string()).unwrap();
    let nums: Vec<u32> = [4, 6, 13, 15, 22, 24].iter().map(|&i| get_num(&toks[i])).collect();
    assert_eq!(nums, vec![0, 4294967295, 7, 120, 99, 1000000]);
    assert_eq!(
        scheme_code(&toks),
        "(calculate-triangle (make-point 0 4294967295) (make-point 7 120) (make-point 99 1000000))"
    );
}

#[test]
fn whitespace_does_not_change_output() {
    let spaced = "  a=point(1,2);\n\tb =  point ( 3 ,\n 4 ) ;c= point(5,6)\n.\n";
    for mode in [OutputMode::Scheme, OutputMode::Prolog] {
        assert_eq!(run(spaced, mode).unwrap(), run(SAMPLE, mode).unwrap());
    }
}

#[test]
fn missing_period_is_a_syntax_error() {
    let r = run("a = point(1, 2); b = point(3, 4); c = point(5, 6)", OutputMode::Scheme);
    assert_eq!(
        r,
        Err(TranslateError::Syntax(SyntaxError {
            index: 26,
            expected: Some(Token::PERIOD),
            found: None
        }))
    );
}

#[test]
fn misspelled_keyword_is_a_syntax_error() {
    let r = run("a = pont(1, 2); b = point(3, 4); c = point(5, 6).", OutputMode::Prolog);
    assert_eq!(
        r,
        Err(TranslateError::Syntax(SyntaxError {
            index: 2,
            expected: Some(Token::POINT),
            found: Some(Token::ID)
        }))
    );
}

#[test]
fn wrong_token_in_place_is_a_syntax_error() {
    let r = run("a = point(1; 2); b = point(3, 4); c = point(5, 6).", OutputMode::Scheme);
    assert_eq!(
        r,
        Err(TranslateError::Syntax(SyntaxError {
            index: 5,
            expected: Some(Token::COMMA),
            found: Some(Token::SEMICOLON)
        }))
    );
    let r = run("a = point(1, 2). b = point(3, 4); c = point(5, 6).", OutputMode::Scheme);
    assert!(matches!(r, Err(TranslateError::Syntax(SyntaxError { index: 8, .. }))));
}

#[test]
fn extra_tokens_are_a_syntax_error() {
    let r = run("a = point(1, 2); b = point(3, 4); c = point(5, 6). d", OutputMode::Scheme);
    assert_eq!(
        r,
        Err(TranslateError::Syntax(SyntaxError {
            index: 27,
            expected: None,
            found: Some(Token::ID)
        }))
    );
}

#[test]
fn empty_input_is_a_syntax_error() {
    let toks = lex(&String::new()).unwrap();
    assert!(toks.is_empty());
    assert!(!parse(&toks));
    assert_eq!(
        run("", OutputMode::Scheme),
        Err(TranslateError::Syntax(SyntaxError {
            index: 0,
            expected: Some(Token::ID),
            found: None
        }))
    );
}

#[test]
fn uppercase_letter_is_a_lex_error() {
    assert_eq!(
        run("A = point(1, 2); b = point(3, 4); c = point(5, 6).", OutputMode::Scheme),
        Err(TranslateError::Lex(LexError::UnexpectedChar('A')))
    );
}

#[test]
fn hash_is_a_lex_error() {
    assert_eq!(
        run("a = point(1, 2); b = point(3, 4); c = point(5, 6). #", OutputMode::Prolog),
        Err(TranslateError::Lex(LexError::UnexpectedChar('#')))
    );
    assert_eq!(lex(&"ab_c".to_string()).unwrap_err(), LexError::UnexpectedChar('_'));
}

#[test]
fn oversized_number_is_a_lex_error() {
    assert_eq!(
        run("a = point(4294967296, 2); b = point(3, 4); c = point(5, 6).", OutputMode::Scheme),
        Err(TranslateError::Lex(LexError::NumberTooLarge))
    );
}

#[test]
fn identifier_spelled_point_is_the_keyword() {
    let toks = lex(&"point = point".to_string()).unwrap();
    assert_eq!(toks.len(), 3);
    assert!(toks.iter().all(|t| t.name != Token::ID));
    assert_eq!(toks[0].name, Token::POINT);
    let r = run("point = point(1, 2); b = point(3, 4); c = point(5, 6).", OutputMode::Scheme);
    assert!(matches!(r, Err(TranslateError::Syntax(SyntaxError { index: 0, .. }))));
}

#[test]
fn identifier_at_end_of_input() {
    let toks = lex(&"abc".to_string()).unwrap();
    assert_eq!(toks.len(), 1);
    assert!(matches!(&toks[0].data, Lexeme::_ID(s) if s == "abc"));
}

#[test]
fn decimal_text() {
    assert_eq!(decimal(0), "0");
    assert_eq!(decimal(7), "7");
    assert_eq!(decimal(10), "10");
    assert_eq!(decimal(4294967295), "4294967295");
}

#[test]
fn lowercase_predicate() {
    assert!(digit_rx(&'a'));
    assert!(digit_rx(&'z'));
    assert!(!digit_rx(&'A'));
    assert!(!digit_rx(&'0'));
}

#[test]
fn node_new_keeps_its_parts() {
    let n = Node::new(Token::NUM, Lexeme::_NUM(42));
    assert_eq!(n.name, Token::NUM);
    assert_eq!(get_num(&n), 42);
}

#[test]
fn generate_selects_the_language() {
    let toks = lex(&SAMPLE.to_string()).unwrap();
    assert_eq!(generate(&toks, OutputMode::Scheme), scheme_code(&toks));
    assert_eq!(generate(&toks, OutputMode::Prolog), prolog_code(&toks));
    assert_eq!(
        prolog_code(&toks),
        expected_prolog("(point2d(1,2), point2d(3,4), point2d(5, 6))")
    );
}
