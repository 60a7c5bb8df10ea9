use lox_front::expr::Expr;
use lox_front::parser::Parser;
use lox_front::printer::pretty_print;
use lox_front::scanner::scan_tokens;
use lox_front::token::{Token, TokenType};

fn parse_source(src: &str) -> Vec<Expr> {
    let (tokens, diags) = scan_tokens(src.to_string());
    assert_eq!(diags.len(), 0, "scanning {:?}", src);
    let mut parser = Parser { tokens, pos: 0 };
    parser.parse().unwrap()
}

/// Prints each parsed tree, re-scans and re-parses the text, and expects a
/// structurally identical forest.
fn assert_round_trip(src: &str) {
    let first = parse_source(src);
    for tree in &first {
        let printed = pretty_print(tree);
        let reparsed = parse_source(&printed);
        assert_eq!(reparsed.len(), 1, "printing {:?} gave {:?}", src, printed);
        assert_eq!(&reparsed[0], tree, "printing {:?} gave {:?}", src, printed);
    }
}

#[test]
fn round_trip_precedence() {
    assert_round_trip("1 + 2 * 3");
    assert_round_trip("1 < 2 == true");
    assert_round_trip("1 - 2 - 3");
}

#[test]
fn round_trip_unary_and_grouping() {
    assert_round_trip("-(1 - 2) / 3");
    assert_round_trip("!!true");
    assert_round_trip("((42))");
}

#[test]
fn round_trip_literals() {
    assert_round_trip("\"abc\"");
    assert_round_trip("nil");
    assert_round_trip("12.5");
    assert_round_trip("false");
}

#[test]
fn round_trip_comma() {
    assert_round_trip("1 + 2,");
}

#[test]
fn round_trip_all_levels_at_once() {
    assert_round_trip("(1 + 2) * 3 <= 4 == !false");
    assert_round_trip("-1 - -2");
    assert_round_trip("\"a\" == \"b\" == nil");
}

#[test]
fn printed_text_is_the_reconstructed_source() {
    let trees = parse_source("1 + 2 * 3");
    assert_eq!(pretty_print(&trees[0]), "1 + 2 * 3");
    let trees = parse_source("-(1)");
    assert_eq!(pretty_print(&trees[0]), "-(1)");
    let trees = parse_source("\"a b\"");
    assert_eq!(pretty_print(&trees[0]), "\"a b\"");
}

#[test]
fn printed_ternary_spells_its_punctuation() {
    let tokens = vec![
        Token { token_type: TokenType::True, lexeme: "true".to_string(), line: 1 },
        Token { token_type: TokenType::Question, lexeme: "?".to_string(), line: 1 },
        Token { token_type: TokenType::Number, lexeme: "1".to_string(), line: 1 },
        Token { token_type: TokenType::Colon, lexeme: ":".to_string(), line: 1 },
        Token { token_type: TokenType::Number, lexeme: "2".to_string(), line: 1 },
    ];
    let mut parser = Parser { tokens, pos: 0 };
    let trees = parser.parse().unwrap();
    assert_eq!(pretty_print(&trees[0]), "true ? 1 : 2");
}
