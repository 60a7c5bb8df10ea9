//! The parser: precedence climbing over a 7-level expression grammar with a
//! one-token-lookahead cursor. The spec functions `p_primary` .. `p_program`
//! are the mathematical model of the descent: for every token sequence and
//! start position they give either the exact end position of the parse or the
//! exact error (its kind and 1-based line). Each executable rule is proved to
//! return precisely that outcome, and on success to return a tree that is
//! grammar-well-formed and whose frontier spells the consumed tokens back
//! out. Parser anomalies, unlike scanner anomalies, always stop the parse:
//! no partial result is returned and there is no resynchronization.

use vstd::prelude::*;

use crate::expr::{
    frontier, level, sig_range, valid_number_lexeme, well_formed, lemma_sig_range_concat,
    lemma_sig_range_one, Expr,
};
use crate::scanner::is_number_char;
use crate::token::{token_models, Token, TokenModel, TokenType};
use vstd::string::*;

verus! {

// ---------------------------------------------------------------------------
// Errors
// ---------------------------------------------------------------------------
/// The kinds of fatal parse error.
#[derive(Clone, Copy, PartialEq, Eq, Structural, Debug)]
pub enum SyntaxErrorKind {
    /// A token (or the end of the stream) where no primary expression can
    /// begin.
    UnexpectedToken,
    /// A `?` whose ternary was not terminated by `:`.
    MissingColon,
    /// A grouped expression not terminated by `)`.
    MissingRightParen,
    /// A `Number` token whose lexeme is not a valid numeric literal; given
    /// the scanner's contract this cannot come from scanned input.
    InvalidNumberLiteral,
}

/// A fatal parse error: the 1-based line it is reported at and its kind.
#[derive(Clone, Copy, PartialEq, Eq, Structural, Debug)]
pub struct SyntaxError {
    pub line: usize,
    pub kind: SyntaxErrorKind,
}

impl SyntaxError {
    /// The human-readable message for this error's kind.
    pub fn message(&self) -> (r: &'static str)
        ensures
            self.kind == SyntaxErrorKind::UnexpectedToken ==> r@ == "Failed to parse token"@,
            self.kind == SyntaxErrorKind::MissingColon ==> r@
                == "Ternary expression not terminated, expected ':' after ? operator"@,
            self.kind == SyntaxErrorKind::MissingRightParen ==> r@
                == "Expected ')' after expression"@,
            self.kind == SyntaxErrorKind::InvalidNumberLiteral ==> r@
                == "Number literal could not be parsed"@,
    {
        match self.kind {
            SyntaxErrorKind::UnexpectedToken => "Failed to parse token",
            SyntaxErrorKind::MissingColon => "Ternary expression not terminated, expected ':' after ? operator",
            SyntaxErrorKind::MissingRightParen => "Expected ')' after expression",
            SyntaxErrorKind::InvalidNumberLiteral => "Number literal could not be parsed",
        }
    }
}

// ---------------------------------------------------------------------------
// The model of the descent
// ---------------------------------------------------------------------------
/// What one grammar rule does with the tokens from a position: consumes up to
/// an exact end position, or fails with an exact error.
pub ghost enum Outcome {
    Parsed { end: int },
    Failed { line: nat, kind: SyntaxErrorKind },
}

/// The line at which an error at `pos` is reported: the token's own line, or
/// for the end of the stream the last token's line (line 1 in an empty
/// stream).
pub open spec fn err_line(toks: Seq<TokenModel>, pos: int) -> nat {
    if 0 <= pos < toks.len() {
        toks[pos].line
    } else if toks.len() > 0 {
        toks[toks.len() - 1].line
    } else {
        1
    }
}

/// A place-holder outcome for definitional branches that a parse can never
/// reach (they require an inner rule to have consumed no tokens).
pub open spec fn stuck() -> Outcome {
    Outcome::Failed { line: 0, kind: SyntaxErrorKind::UnexpectedToken }
}

/// The operator kinds of binary level `lv`.
pub open spec fn ops_at(lv: int, k: TokenType) -> bool {
    if lv == 2 {
        k == TokenType::Slash || k == TokenType::Star
    } else if lv == 3 {
        k == TokenType::Minus || k == TokenType::Plus
    } else if lv == 4 {
        k == TokenType::Less || k == TokenType::LessEqual || k == TokenType::Greater || k
            == TokenType::GreaterEqual
    } else {
        k == TokenType::EqualEqual || k == TokenType::BangEqual
    }
}

/// The primary rule: one literal or keyword token, or a parenthesized
/// expression that must be closed by `)`; anything else — the end of the
/// stream included — fails with `UnexpectedToken`.
pub open spec fn p_primary(toks: Seq<TokenModel>, pos: int) -> Outcome
    decreases toks.len() - pos, 0int, 0int,
{
    if pos < 0 || pos >= toks.len() {
        Outcome::Failed { line: err_line(toks, pos), kind: SyntaxErrorKind::UnexpectedToken }
    } else {
        let t = toks[pos];
        if t.token_type == TokenType::True || t.token_type == TokenType::False || t.token_type
            == TokenType::Nil || t.token_type == TokenType::String {
            Outcome::Parsed { end: pos + 1 }
        } else if t.token_type == TokenType::Number {
            if valid_number_lexeme(t.lexeme) {
                Outcome::Parsed { end: pos + 1 }
            } else {
                Outcome::Failed { line: t.line, kind: SyntaxErrorKind::InvalidNumberLiteral }
            }
        } else if t.token_type == TokenType::LeftParen {
            match p_expression(toks, pos + 1) {
                Outcome::Failed { line, kind } => Outcome::Failed { line, kind },
                Outcome::Parsed { end } => if 0 <= end < toks.len() && toks[end].token_type
                    == TokenType::RightParen {
                    Outcome::Parsed { end: end + 1 }
                } else {
                    Outcome::Failed { line: t.line, kind: SyntaxErrorKind::MissingRightParen }
                },
            }
        } else {
            Outcome::Failed { line: t.line, kind: SyntaxErrorKind::UnexpectedToken }
        }
    }
}

/// The unary rule: `!` and `-` prefixes chain right-associatively, anything
/// else falls through to primary.
pub open spec fn p_unary(toks: Seq<TokenModel>, pos: int) -> Outcome
    decreases toks.len() - pos, 1int, 0int,
{
    if 0 <= pos < toks.len() && (toks[pos].token_type == TokenType::Bang || toks[pos].token_type
        == TokenType::Minus) {
        p_unary(toks, pos + 1)
    } else {
        p_primary(toks, pos)
    }
}

/// The rank of a binary level in the termination measure.
pub open spec fn lv_rank(lv: int) -> int {
    if lv < 2 {
        2
    } else if lv > 5 {
        5
    } else {
        lv
    }
}

/// The operand rule one level tighter than binary level `lv`.
pub open spec fn p_operand(toks: Seq<TokenModel>, pos: int, lv: int) -> Outcome
    decreases toks.len() - pos, lv_rank(lv), 0int,
{
    if 3 <= lv <= 5 {
        p_binary(toks, pos, lv - 1)
    } else {
        p_unary(toks, pos)
    }
}

/// A binary rule (factor `lv == 2`, term 3, comparison 4, equality 5): one
/// operand, then a left-associative loop consuming each operator of the level
/// and a following operand.
pub open spec fn p_binary(toks: Seq<TokenModel>, pos: int, lv: int) -> Outcome
    decreases toks.len() - pos, lv_rank(lv), 2int,
{
    match p_operand(toks, pos, lv) {
        Outcome::Failed { line, kind } => Outcome::Failed { line, kind },
        Outcome::Parsed { end } => if pos < end <= toks.len() {
            p_binary_more(toks, end, lv)
        } else {
            stuck()
        },
    }
}

/// The left-associative loop of a binary rule, from the position after the
/// operand parsed so far.
pub open spec fn p_binary_more(toks: Seq<TokenModel>, pos: int, lv: int) -> Outcome
    decreases toks.len() - pos, lv_rank(lv), 1int,
{
    if 0 <= pos < toks.len() && ops_at(lv, toks[pos].token_type) {
        match p_operand(toks, pos + 1, lv) {
            Outcome::Failed { line, kind } => Outcome::Failed { line, kind },
            Outcome::Parsed { end } => if pos + 1 < end <= toks.len() {
                p_binary_more(toks, end, lv)
            } else {
                stuck()
            },
        }
    } else {
        Outcome::Parsed { end: pos }
    }
}

/// The ternary rule: an equality; then, after `?`, an equality, a required
/// `:` (whose absence is the fatal `MissingColon`, reported at the line of
/// the `?`), and a final equality. Branches are not looped.
pub open spec fn p_ternary(toks: Seq<TokenModel>, pos: int) -> Outcome
    decreases toks.len() - pos, 6int, 0int,
{
    match p_binary(toks, pos, 5) {
        Outcome::Failed { line, kind } => Outcome::Failed { line, kind },
        Outcome::Parsed { end } => if 0 <= end < toks.len() && toks[end].token_type
            == TokenType::Question {
            if pos < end {
                match p_binary(toks, end + 1, 5) {
                    Outcome::Failed { line, kind } => Outcome::Failed { line, kind },
                    Outcome::Parsed { end: end2 } => if 0 <= end2 < toks.len()
                        && toks[end2].token_type == TokenType::Colon {
                        if end < end2 {
                            p_binary(toks, end2 + 1, 5)
                        } else {
                            stuck()
                        }
                    } else {
                        Outcome::Failed {
                            line: toks[end].line,
                            kind: SyntaxErrorKind::MissingColon,
                        }
                    },
                }
            } else {
                stuck()
            }
        } else {
            Outcome::Parsed { end }
        },
    }
}

/// The comma-operator extension: a ternary; a following `,` is consumed, and
/// by this grammar no right-hand operand is parsed — the rule returns
/// immediately after recognizing the comma.
pub open spec fn p_unary_reverse(toks: Seq<TokenModel>, pos: int) -> Outcome
    decreases toks.len() - pos, 7int, 0int,
{
    match p_ternary(toks, pos) {
        Outcome::Failed { line, kind } => Outcome::Failed { line, kind },
        Outcome::Parsed { end } => if 0 <= end < toks.len() && toks[end].token_type
            == TokenType::Comma {
            Outcome::Parsed { end: end + 1 }
        } else {
            Outcome::Parsed { end }
        },
    }
}

/// The whole expression rule: its lowest-precedence level.
pub open spec fn p_expression(toks: Seq<TokenModel>, pos: int) -> Outcome
    decreases toks.len() - pos, 8int, 0int,
{
    p_unary_reverse(toks, pos)
}

/// A whole program: one expression after another until the token stream is
/// exhausted. `Parsed` here always ends at the stream's length.
pub open spec fn p_program(toks: Seq<TokenModel>, pos: int) -> Outcome
    decreases toks.len() - pos, 9int, 0int,
{
    if pos < 0 {
        stuck()
    } else if pos >= toks.len() {
        Outcome::Parsed { end: pos }
    } else {
        match p_expression(toks, pos) {
            Outcome::Failed { line, kind } => Outcome::Failed { line, kind },
            Outcome::Parsed { end } => if pos < end <= toks.len() {
                p_program(toks, end)
            } else {
                stuck()
            },
        }
    }
}

/// What every grammar rule's executable form promises, given the model
/// `out` of the rule and the rule's own grammar level `lvl`: on success the
/// rule consumed tokens up to exactly the end position of the model, and the
/// returned tree is grammar-well-formed, at a level the rule may produce,
/// and spells the consumed tokens back out; on failure the model fails with
/// exactly the returned line and kind.
pub open spec fn rule_post(
    toks: Seq<TokenModel>,
    pos: int,
    r: Result<(Expr, usize), SyntaxError>,
    out: Outcome,
    lvl: int,
) -> bool {
    match r {
        Ok(ep) => {
            &&& out == (Outcome::Parsed { end: ep.1 as int })
            &&& pos < ep.1 <= toks.len()
            &&& well_formed(ep.0)
            &&& level(ep.0) <= lvl
            &&& frontier(ep.0) == sig_range(toks, pos, ep.1 as int)
        },
        Err(err) => out == (Outcome::Failed { line: err.line as nat, kind: err.kind }),
    }
}

/// The trees of a whole parse: `es` are exactly the expressions that the
/// descent produces from position `pos` on — each well-formed, each spelling
/// back the tokens it consumed — and together they consume the stream to its
/// end.
pub open spec fn program_matches(toks: Seq<TokenModel>, pos: int, es: Seq<Expr>) -> bool
    decreases es.len(),
{
    if es.len() == 0 {
        pos == toks.len()
    } else {
        match p_expression(toks, pos) {
            Outcome::Failed { .. } => false,
            Outcome::Parsed { end } => {
                &&& well_formed(es[0])
                &&& level(es[0]) <= 7
                &&& frontier(es[0]) == sig_range(toks, pos, end)
                &&& program_matches(toks, end, es.drop_first())
            },
        }
    }
}

// ---------------------------------------------------------------------------
// The executable descent
// ---------------------------------------------------------------------------
/// Whether `lex` is a lexeme a `Number` leaf may hold.
fn valid_number_check(lex: &String) -> (r: bool)
    ensures
        r == valid_number_lexeme(lex@),
{
    let s = lex.as_str();
    let n = s.unicode_len();
    if n == 0 {
        return false;
    }
    if !crate::scanner::digit_check(s.get_char(0)) {
        return false;
    }
    if !crate::scanner::digit_check(s.get_char(n - 1)) {
        return false;
    }
    let mut i: usize = 0;
    let mut seen_dot = false;
    while i < n
        invariant
            s@ == lex@,
            n == lex@.len(),
            i <= n,
            forall|k: int| 0 <= k < i ==> is_number_char(#[trigger] lex@[k]),
            seen_dot <==> (exists|k: int| 0 <= k < i && #[trigger] lex@[k] == '.'),
            forall|k1: int, k2: int|
                0 <= k1 < k2 < i && #[trigger] lex@[k1] == '.' ==> #[trigger] lex@[k2] != '.',
        decreases n - i,
    {
        let c = s.get_char(i);
        if !crate::scanner::number_char_check(c) {
            return false;
        }
        if c == '.' {
            if seen_dot {
                return false;
            }
            seen_dot = true;
        }
        i = i + 1;
    }
    true
}

/// The executable operator test of binary level `lv`.
fn ops_check(lv: u8, k: TokenType) -> (r: bool)
    requires
        2 <= lv <= 5,
    ensures
        r == ops_at(lv as int, k),
{
    if lv == 2 {
        k == TokenType::Slash || k == TokenType::Star
    } else if lv == 3 {
        k == TokenType::Minus || k == TokenType::Plus
    } else if lv == 4 {
        k == TokenType::Less || k == TokenType::LessEqual || k == TokenType::Greater || k
            == TokenType::GreaterEqual
    } else {
        k == TokenType::EqualEqual || k == TokenType::BangEqual
    }
}

/// The primary rule.
fn primary(tokens: &Vec<Token>, pos: usize) -> (r: Result<(Expr, usize), SyntaxError>)
    requires
        pos <= tokens@.len(),
    ensures
        rule_post(token_models(tokens@), pos as int, r, p_primary(token_models(tokens@), pos as int), 0),
    decreases tokens@.len() - pos, 0int, 0int,
{
    let ghost toks = token_models(tokens@);
    if pos >= tokens.len() {
        let line = if tokens.len() > 0 {
            tokens[tokens.len() - 1].line
        } else {
            1
        };
        return Err(SyntaxError { line, kind: SyntaxErrorKind::UnexpectedToken });
    }
    let kind = tokens[pos].token_type;
    let line = tokens[pos].line;
    proof {
        lemma_sig_range_one(toks, pos as int);
    }
    match kind {
        TokenType::True => Ok((Expr::Boolean(true), pos + 1)),
        TokenType::False => Ok((Expr::Boolean(false), pos + 1)),
        TokenType::Nil => Ok((Expr::Nil, pos + 1)),
        TokenType::String => {
            let body = tokens[pos].lexeme.clone();
            Ok((Expr::String(body), pos + 1))
        },
        TokenType::Number => {
            if valid_number_check(&tokens[pos].lexeme) {
                let lex = tokens[pos].lexeme.clone();
                Ok((Expr::Number(lex), pos + 1))
            } else {
                Err(SyntaxError { line, kind: SyntaxErrorKind::InvalidNumberLiteral })
            }
        },
        TokenType::LeftParen => {
            match expression(tokens, pos + 1) {
                Err(err) => Err(err),
                Ok((inner, end)) => {
                    if end < tokens.len() && tokens[end].token_type == TokenType::RightParen {
                        proof {
                            lemma_sig_range_one(toks, end as int);
                            lemma_sig_range_concat(toks, pos as int, pos + 1, end as int);
                            lemma_sig_range_concat(toks, pos as int, end as int, end + 1);
                        }
                        Ok((Expr::Grouping(Box::new(inner)), end + 1))
                    } else {
                        Err(SyntaxError { line, kind: SyntaxErrorKind::MissingRightParen })
                    }
                },
            }
        },
        _ => Err(SyntaxError { line, kind: SyntaxErrorKind::UnexpectedToken }),
    }
}

/// The unary rule.
fn unary(tokens: &Vec<Token>, pos: usize) -> (r: Result<(Expr, usize), SyntaxError>)
    requires
        pos <= tokens@.len(),
    ensures
        rule_post(token_models(tokens@), pos as int, r, p_unary(token_models(tokens@), pos as int), 1),
    decreases tokens@.len() - pos, 1int, 0int,
{
    let ghost toks = token_models(tokens@);
    if pos < tokens.len() && (tokens[pos].token_type == TokenType::Bang || tokens[pos].token_type
        == TokenType::Minus) {
        let op = tokens[pos].duplicate();
        match unary(tokens, pos + 1) {
            Err(err) => Err(err),
            Ok((right, end)) => {
                proof {
                    lemma_sig_range_one(toks, pos as int);
                    lemma_sig_range_concat(toks, pos as int, pos + 1, end as int);
                }
                Ok((Expr::Unary { operator: op, right: Box::new(right) }, end))
            },
        }
    } else {
        primary(tokens, pos)
    }
}

/// A binary rule: factor for `lv == 2`, term for 3, comparison for 4,
/// equality for 5. One operand of the next-tighter level, then a
/// left-associative loop folding each operator of this level with a following
/// operand into a `Binary` node.
fn binary(tokens: &Vec<Token>, pos: usize, lv: u8) -> (r: Result<(Expr, usize), SyntaxError>)
    requires
        pos <= tokens@.len(),
        2 <= lv <= 5,
    ensures
        rule_post(
            token_models(tokens@),
            pos as int,
            r,
            p_binary(token_models(tokens@), pos as int, lv as int),
            lv as int,
        ),
    decreases tokens@.len() - pos, lv as int, 1int,
{
    let ghost toks = token_models(tokens@);
    let first = if lv == 2 {
        unary(tokens, pos)
    } else {
        binary(tokens, pos, lv - 1)
    };
    let (mut e, mut cur) = match first {
        Err(err) => {
            return Err(err);
        },
        Ok(x) => x,
    };
    while cur < tokens.len() && ops_check(lv, tokens[cur].token_type)
        invariant
            toks == token_models(tokens@),
            2 <= lv <= 5,
            pos < cur <= tokens@.len(),
            well_formed(e),
            level(e) <= lv as int,
            frontier(e) == sig_range(toks, pos as int, cur as int),
            p_binary(toks, pos as int, lv as int) == p_binary_more(toks, cur as int, lv as int),
        decreases tokens@.len() - cur,
    {
        proof {
            assert(toks[cur as int] == tokens@[cur as int]@);
            assert(ops_at(lv as int, toks[cur as int].token_type));
        }
        let op = tokens[cur].duplicate();
        let ghost opos = cur as int;
        let next = if lv == 2 {
            unary(tokens, cur + 1)
        } else {
            binary(tokens, cur + 1, lv - 1)
        };
        let (right, end) = match next {
            Err(err) => {
                proof {
                    assert(p_operand(toks, opos + 1, lv as int) == (Outcome::Failed {
                        line: err.line as nat,
                        kind: err.kind,
                    }));
                    assert(p_binary_more(toks, opos, lv as int) == (Outcome::Failed {
                        line: err.line as nat,
                        kind: err.kind,
                    }));
                }
                return Err(err);
            },
            Ok(x) => x,
        };
        proof {
            assert(p_operand(toks, opos + 1, lv as int) == (Outcome::Parsed { end: end as int }));
            assert(p_binary_more(toks, opos, lv as int) == p_binary_more(toks, end as int, lv as int));
            lemma_sig_range_one(toks, opos);
            lemma_sig_range_concat(toks, pos as int, opos, opos + 1);
            lemma_sig_range_concat(toks, pos as int, opos + 1, end as int);
        }
        e = Expr::Binary { left: Box::new(e), operator: op, right: Box::new(right) };
        cur = end;
    }
    proof {
        assert(cur == tokens@.len() || !ops_at(lv as int, toks[cur as int].token_type));
        assert(p_binary_more(toks, cur as int, lv as int) == (Outcome::Parsed { end: cur as int }));
    }
    Ok((e, cur))
}

/// The ternary rule.
fn ternary(tokens: &Vec<Token>, pos: usize) -> (r: Result<(Expr, usize), SyntaxError>)
    requires
        pos <= tokens@.len(),
    ensures
        rule_post(token_models(tokens@), pos as int, r, p_ternary(token_models(tokens@), pos as int), 6),
    decreases tokens@.len() - pos, 6int, 0int,
{
    let ghost toks = token_models(tokens@);
    let (cond, cur) = match binary(tokens, pos, 5) {
        Err(err) => {
            return Err(err);
        },
        Ok(x) => x,
    };
    if cur < tokens.len() && tokens[cur].token_type == TokenType::Question {
        let qline = tokens[cur].line;
        let (if_true, cur2) = match binary(tokens, cur + 1, 5) {
            Err(err) => {
                return Err(err);
            },
            Ok(x) => x,
        };
        if cur2 < tokens.len() && tokens[cur2].token_type == TokenType::Colon {
            let (if_false, cur3) = match binary(tokens, cur2 + 1, 5) {
                Err(err) => {
                    return Err(err);
                },
                Ok(x) => x,
            };
            proof {
                lemma_sig_range_one(toks, cur as int);
                lemma_sig_range_one(toks, cur2 as int);
                lemma_sig_range_concat(toks, pos as int, cur as int, cur + 1);
                lemma_sig_range_concat(toks, pos as int, cur + 1, cur2 as int);
                lemma_sig_range_concat(toks, pos as int, cur2 as int, cur2 + 1);
                lemma_sig_range_concat(toks, pos as int, cur2 + 1, cur3 as int);
            }
            Ok(
                (
                    Expr::Ternary {
                        condition: Box::new(cond),
                        if_true: Box::new(if_true),
                        if_false: Box::new(if_false),
                    },
                    cur3,
                ),
            )
        } else {
            Err(SyntaxError { line: qline, kind: SyntaxErrorKind::MissingColon })
        }
    } else {
        Ok((cond, cur))
    }
}

/// The comma-operator rule.
fn unary_reverse(tokens: &Vec<Token>, pos: usize) -> (r: Result<(Expr, usize), SyntaxError>)
    requires
        pos <= tokens@.len(),
    ensures
        rule_post(
            token_models(tokens@),
            pos as int,
            r,
            p_unary_reverse(token_models(tokens@), pos as int),
            7,
        ),
    decreases tokens@.len() - pos, 7int, 0int,
{
    let ghost toks = token_models(tokens@);
    let (e, cur) = match ternary(tokens, pos) {
        Err(err) => {
            return Err(err);
        },
        Ok(x) => x,
    };
    if cur < tokens.len() && tokens[cur].token_type == TokenType::Comma {
        let op = tokens[cur].duplicate();
        proof {
            lemma_sig_range_one(toks, cur as int);
            lemma_sig_range_concat(toks, pos as int, cur as int, cur + 1);
        }
        Ok((Expr::UnaryReverse { left: Box::new(e), operator: op }, cur + 1))
    } else {
        Ok((e, cur))
    }
}

/// The whole expression rule: its lowest-precedence level.
fn expression(tokens: &Vec<Token>, pos: usize) -> (r: Result<(Expr, usize), SyntaxError>)
    requires
        pos <= tokens@.len(),
    ensures
        rule_post(
            token_models(tokens@),
            pos as int,
            r,
            p_expression(token_models(tokens@), pos as int),
            7,
        ),
    decreases tokens@.len() - pos, 8int, 0int,
{
    unary_reverse(tokens, pos)
}

// ---------------------------------------------------------------------------
// The parser cursor
// ---------------------------------------------------------------------------
/// A cursor over a scanned token buffer: the buffer and the index of the next
/// unconsumed token.
pub struct Parser {
    pub tokens: Vec<Token>,
    pub pos: usize,
}

impl Parser {
    /// The models of the cursor's tokens.
    pub open spec fn toks(&self) -> Seq<TokenModel> {
        token_models(self.tokens@)
    }

    /// Parses one expression after another until the token stream is
    /// exhausted, or fails on the first fatal error — with no partial result
    /// and no resynchronization — exactly as the model `p_program` says: the
    /// result is `Ok` if and only if the model parses, and the returned trees
    /// satisfy `program_matches` (each is well-formed and spells back exactly
    /// the tokens it consumed).
    pub fn parse(&mut self) -> (r: Result<Vec<Expr>, SyntaxError>)
        requires
            old(self).pos <= old(self).tokens@.len(),
        ensures
            final(self).tokens@ == old(self).tokens@,
            final(self).pos <= final(self).tokens@.len(),
            match r {
                Ok(es) => {
                    &&& p_program(old(self).toks(), old(self).pos as int) == (Outcome::Parsed {
                        end: old(self).tokens@.len() as int,
                    })
                    &&& final(self).pos == final(self).tokens@.len()
                    &&& program_matches(old(self).toks(), old(self).pos as int, es@)
                },
                Err(err) => p_program(old(self).toks(), old(self).pos as int)
                    == (Outcome::Failed { line: err.line as nat, kind: err.kind }),
            },
    {
        let ghost toks = token_models(self.tokens@);
        let ghost start = self.pos as int;
        let mut statements: Vec<Expr> = Vec::new();
        while self.pos < self.tokens.len()
            invariant
                self.tokens@ == old(self).tokens@,
                toks == token_models(self.tokens@),
                start == old(self).pos as int,
                0 <= start,
                self.pos <= self.tokens@.len(),
                p_program(toks, start) == p_program(toks, self.pos as int),
                forall|rest: Seq<Expr>|
                    #[trigger] program_matches(toks, self.pos as int, rest) ==> program_matches(
                        toks,
                        start,
                        statements@ + rest,
                    ),
            decreases self.tokens@.len() - self.pos,
        {
            let (e, end) = match expression(&self.tokens, self.pos) {
                Err(err) => {
                    return Err(err);
                },
                Ok(x) => x,
            };
            let ghost ge = e;
            let ghost old_statements = statements@;
            let ghost p = self.pos as int;
            statements.push(e);
            self.pos = end;
            proof {
                assert forall|rest: Seq<Expr>|
                    #[trigger] program_matches(toks, end as int, rest) implies program_matches(
                    toks,
                    start,
                    statements@ + rest,
                ) by {
                    let one = seq![ge] + rest;
                    assert(one.drop_first() =~= rest);
                    assert(one[0] == ge);
                    assert(program_matches(toks, p, one));
                    assert(old_statements + one =~= statements@ + rest);
                }
            }
        }
        proof {
            assert(program_matches(toks, self.pos as int, Seq::<Expr>::empty()));
            assert(statements@ + Seq::<Expr>::empty() =~= statements@);
        }
        Ok(statements)
    }
}

} // verus!
