//! The token model: the closed set of lexical categories, the physical token
//! record, and the scanner's recoverable diagnostics.

use vstd::prelude::*;

verus! {

/// The closed set of lexical categories. Exactly one kind per token; kinds
/// never combine.
#[derive(Clone, Copy, PartialEq, Eq, Structural, Debug)]
pub enum TokenType {
    LeftParen,
    RightParen,
    LeftBrace,
    RightBrace,
    Comma,
    Dot,
    Minus,
    Plus,
    Semicolon,
    Star,
    Slash,
    Bang,
    BangEqual,
    Equal,
    EqualEqual,
    Less,
    LessEqual,
    Greater,
    GreaterEqual,
    Question,
    Colon,
    String,
    Number,
    Identifier,
    True,
    False,
    Nil,
    Eof,
}

/// An immutable token: its kind, its lexeme (the exact source substring, or
/// for string literals the body without the surrounding quotes), and the
/// 1-based source line at which the token began (for string literals, the
/// line at which scanning of the literal ended).
#[derive(Debug, PartialEq)]
pub struct Token {
    pub token_type: TokenType,
    pub lexeme: String,
    pub line: usize,
}

/// The mathematical model of a token: the lexeme is a sequence of characters,
/// the line an unbounded natural.
pub ghost struct TokenModel {
    pub token_type: TokenType,
    pub lexeme: Seq<char>,
    pub line: nat,
}

impl View for Token {
    type V = TokenModel;

    open spec fn view(&self) -> TokenModel {
        TokenModel { token_type: self.token_type, lexeme: self.lexeme@, line: self.line as nat }
    }
}

/// The models of a sequence of tokens.
pub open spec fn token_models(tokens: Seq<Token>) -> Seq<TokenModel> {
    tokens.map_values(|t: Token| t@)
}

impl Token {
    /// A structurally equal copy whose model is the same.
    pub fn duplicate(&self) -> (r: Token)
        ensures
            r@ == self@,
    {
        Token { token_type: self.token_type, lexeme: self.lexeme.clone(), line: self.line }
    }
}

/// The kinds of anomaly the scanner reports without stopping the scan.
#[derive(Clone, Copy, PartialEq, Eq, Structural, Debug)]
pub enum ScanErrorKind {
    UnexpectedCharacter,
    UnterminatedString,
    TrailingDecimal,
}

/// One reported scanner anomaly: the 1-based line it was seen at and its kind.
#[derive(Clone, Copy, PartialEq, Eq, Structural, Debug)]
pub struct Diagnostic {
    pub line: usize,
    pub kind: ScanErrorKind,
}

/// The mathematical model of a diagnostic.
pub ghost struct DiagnosticModel {
    pub line: nat,
    pub kind: ScanErrorKind,
}

impl View for Diagnostic {
    type V = DiagnosticModel;

    open spec fn view(&self) -> DiagnosticModel {
        DiagnosticModel { line: self.line as nat, kind: self.kind }
    }
}

/// The models of a sequence of diagnostics.
pub open spec fn diagnostic_models(diags: Seq<Diagnostic>) -> Seq<DiagnosticModel> {
    diags.map_values(|d: Diagnostic| d@)
}

impl Diagnostic {
    /// The human-readable message for this diagnostic's kind.
    pub fn message(&self) -> (r: &'static str)
        ensures
            self.kind == ScanErrorKind::UnexpectedCharacter ==> r@ == "Unexpected character"@,
            self.kind == ScanErrorKind::UnterminatedString ==> r@ == "Unterminated string literal"@,
            self.kind == ScanErrorKind::TrailingDecimal ==> r@
                == "Trailing decimal on number is not allowed"@,
    {
        match self.kind {
            ScanErrorKind::UnexpectedCharacter => "Unexpected character",
            ScanErrorKind::UnterminatedString => "Unterminated string literal",
            ScanErrorKind::TrailingDecimal => "Trailing decimal on number is not allowed",
        }
    }
}

} // verus!
