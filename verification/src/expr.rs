//! The expression AST: a closed set of node variants with owned sub-trees,
//! together with the specifications that pin a parsed tree down: its
//! `frontier` (the kind-and-lexeme signature of the tokens it spells back
//! out) and its grammar well-formedness (`well_formed` and `level`, which
//! encode the 7-level precedence layering).

use vstd::prelude::*;

use crate::scanner::{is_digit, is_number_char};
use crate::token::{TokenModel, Token, TokenType};

verus! {

/// An expression tree. Each non-leaf node exclusively owns its
/// sub-expressions; an operator `Token` stored in a node is a value copy of
/// the scanned token. `Number` holds the digit-and-dot lexeme exactly as
/// scanned (conversion to a machine numeric type is a consumer's concern and
/// happens outside this crate's core).
#[derive(Debug, PartialEq)]
pub enum Expr {
    Binary { left: Box<Expr>, operator: Token, right: Box<Expr> },
    Grouping(Box<Expr>),
    Unary { operator: Token, right: Box<Expr> },
    /// The comma-operator node: by this grammar it carries only the left
    /// operand and the comma token, and no right-hand operand.
    UnaryReverse { left: Box<Expr>, operator: Token },
    Ternary { condition: Box<Expr>, if_true: Box<Expr>, if_false: Box<Expr> },
    String(String),
    Boolean(bool),
    Number(String),
    Nil,
}

/// A lexeme that a `Number` leaf may hold: nonempty, only digits and dots,
/// beginning and ending with a digit, and with at most one dot.
pub open spec fn valid_number_lexeme(lex: Seq<char>) -> bool {
    &&& lex.len() > 0
    &&& (forall|k: int| 0 <= k < lex.len() ==> is_number_char(#[trigger] lex[k]))
    &&& is_digit(lex[0])
    &&& is_digit(lex[lex.len() - 1])
    &&& (forall|k1: int, k2: int|
        0 <= k1 < k2 < lex.len() && #[trigger] lex[k1] == '.' ==> #[trigger] lex[k2] != '.')
}

// ---------------------------------------------------------------------------
// Token signatures: kind and lexeme, with the spelling of every fixed kind
// canonical, and line metadata dropped
// ---------------------------------------------------------------------------
/// The signature of one token: its kind, and its lexeme where the kind does
/// not already determine the spelling.
pub ghost struct SigModel {
    pub token_type: TokenType,
    pub lexeme: Seq<char>,
}

/// The spelling of a token kind. For the three kinds that carry content
/// (`String`, `Number`, `Identifier`) it is the token's own lexeme; for every
/// fixed kind it is that kind's one spelling.
pub open spec fn canonical_lexeme(k: TokenType, lex: Seq<char>) -> Seq<char> {
    match k {
        TokenType::LeftParen => seq!['('],
        TokenType::RightParen => seq![')'],
        TokenType::LeftBrace => seq!['{'],
        TokenType::RightBrace => seq!['}'],
        TokenType::Comma => seq![','],
        TokenType::Dot => seq!['.'],
        TokenType::Minus => seq!['-'],
        TokenType::Plus => seq!['+'],
        TokenType::Semicolon => seq![';'],
        TokenType::Star => seq!['*'],
        TokenType::Slash => seq!['/'],
        TokenType::Bang => seq!['!'],
        TokenType::BangEqual => seq!['!', '='],
        TokenType::Equal => seq!['='],
        TokenType::EqualEqual => seq!['=', '='],
        TokenType::Less => seq!['<'],
        TokenType::LessEqual => seq!['<', '='],
        TokenType::Greater => seq!['>'],
        TokenType::GreaterEqual => seq!['>', '='],
        TokenType::Question => seq!['?'],
        TokenType::Colon => seq![':'],
        TokenType::True => seq!['t', 'r', 'u', 'e'],
        TokenType::False => seq!['f', 'a', 'l', 's', 'e'],
        TokenType::Nil => seq!['n', 'i', 'l'],
        TokenType::Eof => Seq::empty(),
        TokenType::String => lex,
        TokenType::Number => lex,
        TokenType::Identifier => lex,
    }
}

/// The signature of a token model.
pub open spec fn sig_of(t: TokenModel) -> SigModel {
    SigModel { token_type: t.token_type, lexeme: canonical_lexeme(t.token_type, t.lexeme) }
}

/// The signatures of the tokens at positions `[from, to)`.
pub open spec fn sig_range(toks: Seq<TokenModel>, from: int, to: int) -> Seq<SigModel> {
    toks.subrange(from, to).map_values(|t: TokenModel| sig_of(t))
}

pub proof fn lemma_sig_range_concat(toks: Seq<TokenModel>, a: int, b: int, c: int)
    requires
        0 <= a <= b <= c <= toks.len(),
    ensures
        sig_range(toks, a, c) == sig_range(toks, a, b) + sig_range(toks, b, c),
{
    assert(sig_range(toks, a, c) =~= sig_range(toks, a, b) + sig_range(toks, b, c));
}

pub proof fn lemma_sig_range_one(toks: Seq<TokenModel>, p: int)
    requires
        0 <= p < toks.len(),
    ensures
        sig_range(toks, p, p + 1) == seq![sig_of(toks[p])],
{
    assert(sig_range(toks, p, p + 1) =~= seq![sig_of(toks[p])]);
}

/// Law: every token the scanner emits carries its kind's canonical spelling,
/// so taking signatures of scanned tokens (as the parser's contracts do)
/// loses no lexeme information.
pub proof fn lemma_scanned_lexemes_are_canonical(s: Seq<char>, i: int, line: nat)
    ensures
        forall|k: int|
            0 <= k < crate::scanner::scan_from(s, i, line).tokens.len() ==> {
                let t = #[trigger] crate::scanner::scan_from(s, i, line).tokens[k];
                t.lexeme == canonical_lexeme(t.token_type, t.lexeme)
            },
    decreases s.len() - i,
{
    let m = crate::scanner::scan_from(s, i, line);
    if 0 <= i < s.len() {
        let c = s[i];
        if crate::scanner::is_single_char_token(c) {
            lemma_scanned_lexemes_are_canonical(s, i + 1, line);
        } else if crate::scanner::is_pairable(c) {
            if i + 1 < s.len() && s[i + 1] == '=' {
                lemma_scanned_lexemes_are_canonical(s, i + 2, line);
            } else {
                lemma_scanned_lexemes_are_canonical(s, i + 1, line);
            }
        } else if c == '/' {
            if i + 1 < s.len() && s[i + 1] == '/' {
                crate::scanner::lemma_seek_bounds(s, i + 2, crate::scanner::non_newline());
                lemma_scanned_lexemes_are_canonical(
                    s,
                    crate::scanner::seek(s, i + 2, crate::scanner::non_newline()),
                    line,
                );
            } else {
                lemma_scanned_lexemes_are_canonical(s, i + 1, line);
            }
        } else if c == ' ' || c == '\r' || c == '\t' {
            lemma_scanned_lexemes_are_canonical(s, i + 1, line);
        } else if c == '\n' {
            lemma_scanned_lexemes_are_canonical(s, i + 1, line + 1);
        } else if c == '"' {
            let j = crate::scanner::seek(s, i + 1, crate::scanner::non_quote());
            crate::scanner::lemma_seek_bounds(s, i + 1, crate::scanner::non_quote());
            if j < s.len() {
                lemma_scanned_lexemes_are_canonical(
                    s,
                    j + 1,
                    line + crate::scanner::newlines(s, i + 1, j),
                );
            }
        } else if crate::scanner::is_digit(c) {
            let j = crate::scanner::seek(s, i, crate::scanner::number_char());
            crate::scanner::lemma_seek_bounds(s, i + 1, crate::scanner::number_char());
            lemma_scanned_lexemes_are_canonical(s, j, line);
        } else if crate::scanner::is_alpha(c) {
            let j = crate::scanner::seek(s, i, crate::scanner::ident_char());
            crate::scanner::lemma_seek_bounds(s, i + 1, crate::scanner::ident_char());
            lemma_scanned_lexemes_are_canonical(s, j, line);
        } else {
            lemma_scanned_lexemes_are_canonical(s, i + 1, line);
        }
    }
}

// ---------------------------------------------------------------------------
// Grammar levels and well-formedness
// ---------------------------------------------------------------------------
/// The precedence level of the grammar rule that produces a `Binary` node
/// with this operator kind: 2 for factor, 3 for term, 4 for comparison,
/// 5 for equality; any other kind is outside the grammar.
pub open spec fn binary_level(k: TokenType) -> int {
    if k == TokenType::Star || k == TokenType::Slash {
        2
    } else if k == TokenType::Minus || k == TokenType::Plus {
        3
    } else if k == TokenType::Less || k == TokenType::LessEqual || k == TokenType::Greater || k
        == TokenType::GreaterEqual {
        4
    } else if k == TokenType::EqualEqual || k == TokenType::BangEqual {
        5
    } else {
        8
    }
}

/// The precedence level of the grammar rule that produces this node shape:
/// 0 primary, 1 unary, 2-5 the binary levels, 6 ternary, 7 the comma
/// extension. Lower levels bind tighter.
pub open spec fn level(e: Expr) -> int {
    match e {
        Expr::Binary { operator, .. } => binary_level(operator.token_type),
        Expr::Unary { .. } => 1,
        Expr::UnaryReverse { .. } => 7,
        Expr::Ternary { .. } => 6,
        _ => 0,
    }
}

/// Grammar well-formedness: every node's operator is drawn from exactly the
/// token kinds accepted at its grammar level,
/// sub-trees sit at the levels the grammar admits there
/// (left-associative levels admit their own level on the left and only the
/// next-tighter level on the right; ternary branches are equality-level), and
/// every `Number` leaf holds a valid numeric lexeme.
pub open spec fn well_formed(e: Expr) -> bool
    decreases e,
{
    match e {
        Expr::Nil => true,
        Expr::Boolean(_) => true,
        Expr::String(_) => true,
        Expr::Number(lex) => valid_number_lexeme(lex@),
        Expr::Grouping(inner) => well_formed(*inner) && level(*inner) <= 7,
        Expr::Unary { operator, right } => {
            &&& (operator.token_type == TokenType::Bang || operator.token_type == TokenType::Minus)
            &&& well_formed(*right)
            &&& level(*right) <= 1
        },
        Expr::Binary { left, operator, right } => {
            &&& 2 <= binary_level(operator.token_type) <= 5
            &&& well_formed(*left)
            &&& well_formed(*right)
            &&& level(*left) <= binary_level(operator.token_type)
            &&& level(*right) <= binary_level(operator.token_type) - 1
        },
        Expr::Ternary { condition, if_true, if_false } => {
            &&& well_formed(*condition)
            &&& well_formed(*if_true)
            &&& well_formed(*if_false)
            &&& level(*condition) <= 5
            &&& level(*if_true) <= 5
            &&& level(*if_false) <= 5
        },
        Expr::UnaryReverse { left, operator } => {
            &&& operator.token_type == TokenType::Comma
            &&& well_formed(*left)
            &&& level(*left) <= 6
        },
    }
}

/// The frontier of a tree: the signatures of the token sequence it spells
/// back out, in source order — line metadata excluded.
pub open spec fn frontier(e: Expr) -> Seq<SigModel>
    decreases e,
{
    match e {
        Expr::Nil => seq![SigModel { token_type: TokenType::Nil, lexeme: seq!['n', 'i', 'l'] }],
        Expr::Boolean(b) => if b {
            seq![SigModel { token_type: TokenType::True, lexeme: seq!['t', 'r', 'u', 'e'] }]
        } else {
            seq![
                SigModel { token_type: TokenType::False, lexeme: seq!['f', 'a', 'l', 's', 'e'] },
            ]
        },
        Expr::String(body) => seq![SigModel { token_type: TokenType::String, lexeme: body@ }],
        Expr::Number(lex) => seq![SigModel { token_type: TokenType::Number, lexeme: lex@ }],
        Expr::Grouping(inner) => seq![
            SigModel { token_type: TokenType::LeftParen, lexeme: seq!['('] },
        ] + frontier(*inner) + seq![
            SigModel { token_type: TokenType::RightParen, lexeme: seq![')'] },
        ],
        Expr::Unary { operator, right } => seq![sig_of(operator@)] + frontier(*right),
        Expr::Binary { left, operator, right } => frontier(*left) + seq![sig_of(operator@)]
            + frontier(*right),
        Expr::UnaryReverse { left, operator } => frontier(*left) + seq![sig_of(operator@)],
        Expr::Ternary { condition, if_true, if_false } => frontier(*condition) + seq![
            SigModel { token_type: TokenType::Question, lexeme: seq!['?'] },
        ] + frontier(*if_true) + seq![
            SigModel { token_type: TokenType::Colon, lexeme: seq![':'] },
        ] + frontier(*if_false),
    }
}

} // verus!
