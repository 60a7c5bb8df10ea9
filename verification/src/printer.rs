//! A pretty-printer that reconstructs source text from an expression tree:
//! re-scanning and re-parsing its output yields a structurally identical
//! tree (line-number metadata aside). `print_expr` is the exact model of the
//! reconstruction; `pretty_print` is proved to compute it.

use vstd::prelude::*;
use vstd::string::*;

use crate::expr::{canonical_lexeme, Expr};
use crate::token::TokenType;

verus! {

/// The source text that a tree spells out: literals as themselves (string
/// bodies re-quoted), every operator in its canonical spelling, one space
/// around binary and ternary punctuation so that re-scanning splits the text
/// into exactly the tree's frontier.
pub open spec fn print_expr(e: Expr) -> Seq<char>
    decreases e,
{
    match e {
        Expr::Nil => seq!['n', 'i', 'l'],
        Expr::Boolean(b) => if b {
            seq!['t', 'r', 'u', 'e']
        } else {
            seq!['f', 'a', 'l', 's', 'e']
        },
        Expr::String(body) => seq!['"'] + body@ + seq!['"'],
        Expr::Number(lex) => lex@,
        Expr::Grouping(inner) => seq!['('] + print_expr(*inner) + seq![')'],
        Expr::Unary { operator, right } => canonical_lexeme(operator.token_type, Seq::empty())
            + print_expr(*right),
        Expr::Binary { left, operator, right } => print_expr(*left) + seq![' ']
            + canonical_lexeme(operator.token_type, Seq::empty()) + seq![' '] + print_expr(*right),
        Expr::UnaryReverse { left, operator: _ } => print_expr(*left) + seq![','],
        Expr::Ternary { condition, if_true, if_false } => print_expr(*condition) + seq![
            ' ',
            '?',
            ' ',
        ] + print_expr(*if_true) + seq![' ', ':', ' '] + print_expr(*if_false),
    }
}

/// The canonical spelling of a token kind (empty for the three
/// content-carrying kinds and the end marker).
pub fn kind_text(k: TokenType) -> (r: &'static str)
    ensures
        r@ == canonical_lexeme(k, Seq::empty()),
{
    match k {
        TokenType::LeftParen => {
            proof {
                reveal_strlit("(");
                assert("("@ =~= seq!['(']);
            }
            "("
        },
        TokenType::RightParen => {
            proof {
                reveal_strlit(")");
                assert(")"@ =~= seq![')']);
            }
            ")"
        },
        TokenType::LeftBrace => {
            proof {
                reveal_strlit("{");
                assert("{"@ =~= seq!['{']);
            }
            "{"
        },
        TokenType::RightBrace => {
            proof {
                reveal_strlit("}");
                assert("}"@ =~= seq!['}']);
            }
            "}"
        },
        TokenType::Comma => {
            proof {
                reveal_strlit(",");
                assert(","@ =~= seq![',']);
            }
            ","
        },
        TokenType::Dot => {
            proof {
                reveal_strlit(".");
                assert("."@ =~= seq!['.']);
            }
            "."
        },
        TokenType::Minus => {
            proof {
                reveal_strlit("-");
                assert("-"@ =~= seq!['-']);
            }
            "-"
        },
        TokenType::Plus => {
            proof {
                reveal_strlit("+");
                assert("+"@ =~= seq!['+']);
            }
            "+"
        },
        TokenType::Semicolon => {
            proof {
                reveal_strlit(";");
                assert(";"@ =~= seq![';']);
            }
            ";"
        },
        TokenType::Star => {
            proof {
                reveal_strlit("*");
                assert("*"@ =~= seq!['*']);
            }
            "*"
        },
        TokenType::Slash => {
            proof {
                reveal_strlit("/");
                assert("/"@ =~= seq!['/']);
            }
            "/"
        },
        TokenType::Bang => {
            proof {
                reveal_strlit("!");
                assert("!"@ =~= seq!['!']);
            }
            "!"
        },
        TokenType::BangEqual => {
            proof {
                reveal_strlit("!=");
                assert("!="@ =~= seq!['!', '=']);
            }
            "!="
        },
        TokenType::Equal => {
            proof {
                reveal_strlit("=");
                assert("="@ =~= seq!['=']);
            }
            "="
        },
        TokenType::EqualEqual => {
            proof {
                reveal_strlit("==");
                assert("=="@ =~= seq!['=', '=']);
            }
            "=="
        },
        TokenType::Less => {
            proof {
                reveal_strlit("<");
                assert("<"@ =~= seq!['<']);
            }
            "<"
        },
        TokenType::LessEqual => {
            proof {
                reveal_strlit("<=");
                assert("<="@ =~= seq!['<', '=']);
            }
            "<="
        },
        TokenType::Greater => {
            proof {
                reveal_strlit(">");
                assert(">"@ =~= seq!['>']);
            }
            ">"
        },
        TokenType::GreaterEqual => {
            proof {
                reveal_strlit(">=");
                assert(">="@ =~= seq!['>', '=']);
            }
            ">="
        },
        TokenType::Question => {
            proof {
                reveal_strlit("?");
                assert("?"@ =~= seq!['?']);
            }
            "?"
        },
        TokenType::Colon => {
            proof {
                reveal_strlit(":");
                assert(":"@ =~= seq![':']);
            }
            ":"
        },
        TokenType::True => {
            proof {
                reveal_strlit("true");
                assert("true"@ =~= seq!['t', 'r', 'u', 'e']);
            }
            "true"
        },
        TokenType::False => {
            proof {
                reveal_strlit("false");
                assert("false"@ =~= seq!['f', 'a', 'l', 's', 'e']);
            }
            "false"
        },
        TokenType::Nil => {
            proof {
                reveal_strlit("nil");
                assert("nil"@ =~= seq!['n', 'i', 'l']);
            }
            "nil"
        },
        _ => {
            proof {
                reveal_strlit("");
                assert(""@ =~= Seq::<char>::empty());
            }
            ""
        },
    }
}

/// Reconstructs source text for a tree: exactly `print_expr` of it.
pub fn pretty_print(e: &Expr) -> (r: String)
    ensures
        r@ == print_expr(*e),
    decreases *e,
{
    proof {
        reveal_strlit(" ");
        reveal_strlit("\"");
        reveal_strlit("(");
        reveal_strlit(")");
        reveal_strlit(",");
        reveal_strlit("?");
        reveal_strlit(":");
        reveal_strlit("nil");
        reveal_strlit("true");
        reveal_strlit("false");
        assert(" "@ =~= seq![' ']);
        assert("\""@ =~= seq!['"']);
        assert("("@ =~= seq!['(']);
        assert(")"@ =~= seq![')']);
        assert(","@ =~= seq![',']);
        assert("nil"@ =~= seq!['n', 'i', 'l']);
        assert("true"@ =~= seq!['t', 'r', 'u', 'e']);
        assert("false"@ =~= seq!['f', 'a', 'l', 's', 'e']);
    }
    match e {
        Expr::Nil => String::from_str("nil"),
        Expr::Boolean(b) => if *b {
            String::from_str("true")
        } else {
            String::from_str("false")
        },
        Expr::String(body) => {
            let mut s = String::from_str("\"");
            s.append(body.as_str());
            s.append("\"");
            s
        },
        Expr::Number(lex) => lex.clone(),
        Expr::Grouping(inner) => {
            let mut s = String::from_str("(");
            let t = pretty_print(inner);
            s.append(t.as_str());
            s.append(")");
            s
        },
        Expr::Unary { operator, right } => {
            let mut s = String::from_str(kind_text(operator.token_type));
            let t = pretty_print(right);
            s.append(t.as_str());
            s
        },
        Expr::Binary { left, operator, right } => {
            let mut s = pretty_print(left);
            s.append(" ");
            s.append(kind_text(operator.token_type));
            s.append(" ");
            let t = pretty_print(right);
            s.append(t.as_str());
            s
        },
        Expr::UnaryReverse { left, operator: _ } => {
            let mut s = pretty_print(left);
            s.append(",");
            s
        },
        Expr::Ternary { condition, if_true, if_false } => {
            let mut s = pretty_print(condition);
            s.append(" ");
            s.append("?");
            s.append(" ");
            let t = pretty_print(if_true);
            s.append(t.as_str());
            s.append(" ");
            s.append(":");
            s.append(" ");
            let u = pretty_print(if_false);
            s.append(u.as_str());
            s
        },
    }
}

} // verus!
