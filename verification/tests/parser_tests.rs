use lox_front::expr::Expr;
use lox_front::parser::{Parser, SyntaxErrorKind};
use lox_front::scanner::scan_tokens;
use lox_front::token::{Token, TokenType};

fn tok(token_type: TokenType, lexeme: &str, line: usize) -> Token {
    Token { token_type, lexeme: lexeme.to_string(), line }
}

fn parse_source(src: &str) -> Result<Vec<Expr>, lox_front::parser::SyntaxError> {
    let (tokens, diags) = scan_tokens(src.to_string());
    assert_eq!(diags.len(), 0, "scanning {:?}", src);
    let mut parser = Parser { tokens, pos: 0 };
    parser.parse()
}

fn number(lexeme: &str) -> Expr {
    Expr::Number(lexeme.to_string())
}

#[test]
fn factor_binds_tighter_than_term() {
    let expressions = parse_source("1 + 2 * 3").unwrap();
    let expected = Expr::Binary {
        left: Box::new(number("1")),
        operator: tok(TokenType::Plus, "+", 1),
        right: Box::new(Expr::Binary {
            left: Box::new(number("2")),
            operator: tok(TokenType::Star, "*", 1),
            right: Box::new(number("3")),
        }),
    };
    assert_eq!(expressions, vec![expected]);
}

#[test]
fn equality_is_outer_comparison_inner() {
    let expressions = parse_source("1 < 2 == true").unwrap();
    let expected = Expr::Binary {
        left: Box::new(Expr::Binary {
            left: Box::new(number("1")),
            operator: tok(TokenType::Less, "<", 1),
            right: Box::new(number("2")),
        }),
        operator: tok(TokenType::EqualEqual, "==", 1),
        right: Box::new(Expr::Boolean(true)),
    };
    assert_eq!(expressions, vec![expected]);
}

#[test]
fn ternary_three_operands() {
    let tokens = vec![
        tok(TokenType::True, "true", 1),
        tok(TokenType::Question, "?", 1),
        tok(TokenType::Number, "1", 1),
        tok(TokenType::Colon, ":", 1),
        tok(TokenType::Number, "2", 1),
    ];
    let mut parser = Parser { tokens, pos: 0 };
    let expressions = parser.parse().unwrap();
    let expected = Expr::Ternary {
        condition: Box::new(Expr::Boolean(true)),
        if_true: Box::new(number("1")),
        if_false: Box::new(number("2")),
    };
    assert_eq!(expressions, vec![expected]);
}

#[test]
fn unterminated_grouping_is_fatal_at_opening_paren_line() {
    let (tokens, diags) = scan_tokens("(1 + 2".to_string());
    assert_eq!(diags.len(), 0);
    let mut parser = Parser { tokens, pos: 0 };
    let err = parser.parse().unwrap_err();
    assert_eq!(err.kind, SyntaxErrorKind::MissingRightParen);
    assert_eq!(err.line, 1);
    assert_eq!(err.message(), "Expected ')' after expression");
}

#[test]
fn missing_colon_is_fatal() {
    let tokens = vec![
        tok(TokenType::True, "true", 3),
        tok(TokenType::Question, "?", 3),
        tok(TokenType::Number, "1", 3),
        tok(TokenType::Number, "2", 3),
    ];
    let mut parser = Parser { tokens, pos: 0 };
    let err = parser.parse().unwrap_err();
    assert_eq!(err.kind, SyntaxErrorKind::MissingColon);
    assert_eq!(err.line, 3);
    assert_eq!(
        err.message(),
        "Ternary expression not terminated, expected ':' after ? operator"
    );
}

#[test]
fn unexpected_token_is_fatal() {
    let err = parse_source(")").unwrap_err();
    assert_eq!(err.kind, SyntaxErrorKind::UnexpectedToken);
    assert_eq!(err.line, 1);
    assert_eq!(err.message(), "Failed to parse token");
}

#[test]
fn missing_operand_at_end_of_stream_is_fatal() {
    let err = parse_source("1 +").unwrap_err();
    assert_eq!(err.kind, SyntaxErrorKind::UnexpectedToken);
    assert_eq!(err.line, 1);
}

#[test]
fn identifier_is_not_a_primary() {
    let err = parse_source("foo").unwrap_err();
    assert_eq!(err.kind, SyntaxErrorKind::UnexpectedToken);
}

#[test]
fn number_leaf_requires_a_parsable_lexeme() {
    let tokens = vec![tok(TokenType::Number, "1.2.3", 1)];
    let mut parser = Parser { tokens, pos: 0 };
    let err = parser.parse().unwrap_err();
    assert_eq!(err.kind, SyntaxErrorKind::InvalidNumberLiteral);
    assert_eq!(err.message(), "Number literal could not be parsed");
}

#[test]
fn unary_prefixes_chain() {
    let expressions = parse_source("-5").unwrap();
    let expected = Expr::Unary {
        operator: tok(TokenType::Minus, "-", 1),
        right: Box::new(number("5")),
    };
    assert_eq!(expressions, vec![expected]);

    let expressions = parse_source("!!true").unwrap();
    let expected = Expr::Unary {
        operator: tok(TokenType::Bang, "!", 1),
        right: Box::new(Expr::Unary {
            operator: tok(TokenType::Bang, "!", 1),
            right: Box::new(Expr::Boolean(true)),
        }),
    };
    assert_eq!(expressions, vec![expected]);
}

#[test]
fn comma_node_carries_left_operand_only() {
    let expressions = parse_source("1,2").unwrap();
    let expected = vec![
        Expr::UnaryReverse {
            left: Box::new(number("1")),
            operator: tok(TokenType::Comma, ",", 1),
        },
        number("2"),
    ];
    assert_eq!(expressions, expected);
}

#[test]
fn grouping_and_literals() {
    let expressions = parse_source("(1) \"hi\" nil").unwrap();
    let expected = vec![
        Expr::Grouping(Box::new(number("1"))),
        Expr::String("hi".to_string()),
        Expr::Nil,
    ];
    assert_eq!(expressions, expected);
}

#[test]
fn one_expression_per_statement_until_exhausted() {
    let expressions = parse_source("1 2 3").unwrap();
    assert_eq!(expressions, vec![number("1"), number("2"), number("3")]);
}

#[test]
fn empty_token_stream_parses_to_nothing() {
    let mut parser = Parser { tokens: Vec::new(), pos: 0 };
    let expressions = parser.parse().unwrap();
    assert_eq!(expressions.len(), 0);
}

#[test]
fn scanned_double_dotted_number_fails_numeric_parse() {
    // The scanner's maximal munch accepts "1.2.3" as one Number token (it
    // does not end in a dot); the parser's defensive numeric check rejects it.
    let (tokens, diags) = scan_tokens("1.2.3".to_string());
    assert_eq!(diags.len(), 0);
    assert_eq!(tokens.len(), 1);
    assert_eq!(tokens[0].token_type, TokenType::Number);
    assert_eq!(tokens[0].lexeme, "1.2.3");
    let mut parser = Parser { tokens, pos: 0 };
    let err = parser.parse().unwrap_err();
    assert_eq!(err.kind, SyntaxErrorKind::InvalidNumberLiteral);
}

#[test]
fn error_lines_follow_the_tokens() {
    let (tokens, diags) = scan_tokens("1\n+\n(2".to_string());
    assert_eq!(diags.len(), 0);
    let mut parser = Parser { tokens, pos: 0 };
    let err = parser.parse().unwrap_err();
    assert_eq!(err.kind, SyntaxErrorKind::MissingRightParen);
    assert_eq!(err.line, 3);
}

#[test]
fn left_associative_folding() {
    let expressions = parse_source("1 - 2 - 3").unwrap();
    let expected = Expr::Binary {
        left: Box::new(Expr::Binary {
            left: Box::new(number("1")),
            operator: tok(TokenType::Minus, "-", 1),
            right: Box::new(number("2")),
        }),
        operator: tok(TokenType::Minus, "-", 1),
        right: Box::new(number("3")),
    };
    assert_eq!(expressions, vec![expected]);
}
