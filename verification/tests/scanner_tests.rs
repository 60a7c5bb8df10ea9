use lox_front::scanner::scan_tokens;
use lox_front::token::{ScanErrorKind, Token, TokenType};

fn scan(src: &str) -> (Vec<Token>, Vec<lox_front::token::Diagnostic>) {
    scan_tokens(src.to_string())
}

fn one_token(src: &str) -> Token {
    let (tokens, diags) = scan(src);
    assert_eq!(tokens.len(), 1, "scanning {:?}", src);
    assert_eq!(diags.len(), 0, "scanning {:?}", src);
    tokens.into_iter().next().unwrap()
}

#[test]
fn single_char_tokens() {
    let cases = [
        ("(", TokenType::LeftParen),
        (")", TokenType::RightParen),
        ("{", TokenType::LeftBrace),
        ("}", TokenType::RightBrace),
        (",", TokenType::Comma),
        (".", TokenType::Dot),
        ("-", TokenType::Minus),
        ("+", TokenType::Plus),
        (";", TokenType::Semicolon),
        ("*", TokenType::Star),
    ];
    for (src, kind) in cases {
        let t = one_token(src);
        assert_eq!(t.token_type, kind);
        assert_eq!(t.lexeme, src);
        assert_eq!(t.line, 1);
    }
}

#[test]
fn two_char_operators() {
    let cases = [
        ("!=", TokenType::BangEqual),
        ("==", TokenType::EqualEqual),
        ("<=", TokenType::LessEqual),
        (">=", TokenType::GreaterEqual),
    ];
    for (src, kind) in cases {
        let t = one_token(src);
        assert_eq!(t.token_type, kind);
        assert_eq!(t.lexeme, src);
    }
}

#[test]
fn lone_operator_at_end_of_input_still_emits() {
    let cases = [
        ("!", TokenType::Bang),
        ("=", TokenType::Equal),
        ("<", TokenType::Less),
        (">", TokenType::Greater),
        ("/", TokenType::Slash),
    ];
    for (src, kind) in cases {
        let t = one_token(src);
        assert_eq!(t.token_type, kind);
        assert_eq!(t.lexeme, src);
    }
}

#[test]
fn two_char_operator_consumes_equal_sign() {
    let (tokens, diags) = scan("<=5");
    assert_eq!(diags.len(), 0);
    assert_eq!(tokens.len(), 2);
    assert_eq!(tokens[0].token_type, TokenType::LessEqual);
    assert_eq!(tokens[1].token_type, TokenType::Number);
    assert_eq!(tokens[1].lexeme, "5");
}

#[test]
fn lone_operator_does_not_consume_lookahead() {
    let (tokens, diags) = scan(">5");
    assert_eq!(diags.len(), 0);
    assert_eq!(tokens.len(), 2);
    assert_eq!(tokens[0].token_type, TokenType::Greater);
    assert_eq!(tokens[1].token_type, TokenType::Number);
    assert_eq!(tokens[1].lexeme, "5");
}

#[test]
fn comment_then_number_on_next_line() {
    let (tokens, diags) = scan("// comment\n123");
    assert_eq!(diags.len(), 0);
    assert_eq!(tokens.len(), 1);
    assert_eq!(tokens[0].token_type, TokenType::Number);
    assert_eq!(tokens[0].lexeme, "123");
    assert_eq!(tokens[0].line, 2);
}

#[test]
fn slash_is_a_token_when_not_a_comment() {
    let (tokens, diags) = scan("1 / 2");
    assert_eq!(diags.len(), 0);
    let kinds: Vec<TokenType> = tokens.iter().map(|t| t.token_type).collect();
    assert_eq!(kinds, vec![TokenType::Number, TokenType::Slash, TokenType::Number]);
}

#[test]
fn string_literal_body_without_quotes() {
    let t = one_token("\"abc\"");
    assert_eq!(t.token_type, TokenType::String);
    assert_eq!(t.lexeme, "abc");
    assert_eq!(t.line, 1);
}

#[test]
fn string_literal_counts_embedded_newlines() {
    let t = one_token("\"a\nb\"");
    assert_eq!(t.token_type, TokenType::String);
    assert_eq!(t.lexeme, "a\nb");
    assert_eq!(t.line, 2);
}

#[test]
fn unterminated_string_reports_and_emits_nothing() {
    let (tokens, diags) = scan("\"abc");
    assert_eq!(tokens.len(), 0);
    assert_eq!(diags.len(), 1);
    assert_eq!(diags[0].kind, ScanErrorKind::UnterminatedString);
    assert_eq!(diags[0].line, 1);
    assert_eq!(diags[0].message(), "Unterminated string literal");
}

#[test]
fn trailing_decimal_reports_and_emits_nothing() {
    let (tokens, diags) = scan("12.");
    assert_eq!(tokens.len(), 0);
    assert_eq!(diags.len(), 1);
    assert_eq!(diags[0].kind, ScanErrorKind::TrailingDecimal);
    assert_eq!(diags[0].line, 1);
    assert_eq!(diags[0].message(), "Trailing decimal on number is not allowed");
}

#[test]
fn scan_continues_after_trailing_decimal() {
    let (tokens, diags) = scan("12. 7");
    assert_eq!(diags.len(), 1);
    assert_eq!(diags[0].kind, ScanErrorKind::TrailingDecimal);
    assert_eq!(tokens.len(), 1);
    assert_eq!(tokens[0].token_type, TokenType::Number);
    assert_eq!(tokens[0].lexeme, "7");
}

#[test]
fn decimal_number_keeps_its_text() {
    let t = one_token("12.5");
    assert_eq!(t.token_type, TokenType::Number);
    assert_eq!(t.lexeme, "12.5");
}

#[test]
fn keywords_and_identifiers() {
    let (tokens, diags) = scan("true false nil foo _bar9");
    assert_eq!(diags.len(), 0);
    let kinds: Vec<TokenType> = tokens.iter().map(|t| t.token_type).collect();
    assert_eq!(
        kinds,
        vec![
            TokenType::True,
            TokenType::False,
            TokenType::Nil,
            TokenType::Identifier,
            TokenType::Identifier,
        ]
    );
    assert_eq!(tokens[3].lexeme, "foo");
    assert_eq!(tokens[4].lexeme, "_bar9");
}

#[test]
fn unexpected_character_reports_and_continues() {
    let (tokens, diags) = scan("# 1");
    assert_eq!(diags.len(), 1);
    assert_eq!(diags[0].kind, ScanErrorKind::UnexpectedCharacter);
    assert_eq!(diags[0].message(), "Unexpected character");
    assert_eq!(tokens.len(), 1);
    assert_eq!(tokens[0].token_type, TokenType::Number);
}

#[test]
fn empty_source_scans_to_nothing() {
    let (tokens, diags) = scan("");
    assert_eq!(tokens.len(), 0);
    assert_eq!(diags.len(), 0);
}

#[test]
fn comment_to_end_of_input_emits_nothing() {
    let (tokens, diags) = scan("1 // trailing");
    assert_eq!(diags.len(), 0);
    assert_eq!(tokens.len(), 1);
    assert_eq!(tokens[0].token_type, TokenType::Number);
}

#[test]
fn whitespace_emits_nothing_and_newline_counts() {
    let (tokens, diags) = scan(" \r\t\n+");
    assert_eq!(diags.len(), 0);
    assert_eq!(tokens.len(), 1);
    assert_eq!(tokens[0].token_type, TokenType::Plus);
    assert_eq!(tokens[0].line, 2);
}
