//! The scanner: a single left-to-right pass over the source characters with
//! one-character lookahead, producing an ordered token sequence and a
//! side-channel of recoverable diagnostics. `scan_from` is the mathematical
//! model of the pass; `scan_tokens` is proved to compute exactly that model.

use vstd::prelude::*;
use vstd::string::*;

use crate::token::{
    diagnostic_models, token_models, Diagnostic, DiagnosticModel, ScanErrorKind, Token, TokenModel,
    TokenType,
};

verus! {

// ---------------------------------------------------------------------------
// Character classes
// ---------------------------------------------------------------------------
/// An ASCII decimal digit.
pub open spec fn is_digit(c: char) -> bool {
    '0' as u32 <= c as u32 && c as u32 <= '9' as u32
}

/// A character that may begin an identifier: an ASCII letter or underscore.
pub open spec fn is_alpha(c: char) -> bool {
    ('a' as u32 <= c as u32 && c as u32 <= 'z' as u32) || ('A' as u32 <= c as u32 && c as u32
        <= 'Z' as u32) || c == '_'
}

/// A character that may continue an identifier.
pub open spec fn is_ident_char(c: char) -> bool {
    is_alpha(c) || is_digit(c)
}

/// A character that the maximal munch of a number literal consumes.
pub open spec fn is_number_char(c: char) -> bool {
    is_digit(c) || c == '.'
}

/// The ten characters that immediately emit a single-character token.
pub open spec fn is_single_char_token(c: char) -> bool {
    c == '(' || c == ')' || c == '{' || c == '}' || c == ',' || c == '.' || c == '-' || c == '+'
        || c == ';' || c == '*'
}

/// The kind emitted for each single-character token.
pub open spec fn single_char_kind(c: char) -> TokenType {
    if c == '(' {
        TokenType::LeftParen
    } else if c == ')' {
        TokenType::RightParen
    } else if c == '{' {
        TokenType::LeftBrace
    } else if c == '}' {
        TokenType::RightBrace
    } else if c == ',' {
        TokenType::Comma
    } else if c == '.' {
        TokenType::Dot
    } else if c == '-' {
        TokenType::Minus
    } else if c == '+' {
        TokenType::Plus
    } else if c == ';' {
        TokenType::Semicolon
    } else {
        TokenType::Star
    }
}

/// The characters of the two-character operator family.
pub open spec fn is_pairable(c: char) -> bool {
    c == '!' || c == '=' || c == '<' || c == '>'
}

/// The kind emitted when a pairable character is followed by `=`.
pub open spec fn pair_kind(c: char) -> TokenType {
    if c == '!' {
        TokenType::BangEqual
    } else if c == '=' {
        TokenType::EqualEqual
    } else if c == '<' {
        TokenType::LessEqual
    } else {
        TokenType::GreaterEqual
    }
}

/// The kind emitted when a pairable character stands alone, including at the
/// very end of the input.
pub open spec fn lone_kind(c: char) -> TokenType {
    if c == '!' {
        TokenType::Bang
    } else if c == '=' {
        TokenType::Equal
    } else if c == '<' {
        TokenType::Less
    } else {
        TokenType::Greater
    }
}

/// Reserved-word recognition: the spellings `true`, `false` and `nil` become
/// keyword kinds, every other identifier-shaped run stays `Identifier`.
pub open spec fn keyword_kind(lex: Seq<char>) -> TokenType {
    if lex == seq!['t', 'r', 'u', 'e'] {
        TokenType::True
    } else if lex == seq!['f', 'a', 'l', 's', 'e'] {
        TokenType::False
    } else if lex == seq!['n', 'i', 'l'] {
        TokenType::Nil
    } else {
        TokenType::Identifier
    }
}

// ---------------------------------------------------------------------------
// Maximal munch: the first position at or after `i` whose character fails `p`
// ---------------------------------------------------------------------------
/// The end of the run of characters satisfying `p` that starts at `i`:
/// the first index at or after `i` whose character fails `p`, or the length
/// of the input if the run reaches the end.
pub open spec fn seek(s: Seq<char>, i: int, p: spec_fn(char) -> bool) -> int
    decreases s.len() - i,
{
    if i < 0 || i >= s.len() {
        s.len() as int
    } else if p(s[i]) {
        seek(s, i + 1, p)
    } else {
        i
    }
}

/// The predicate of a line comment's munch: everything up to a newline.
pub open spec fn non_newline() -> spec_fn(char) -> bool {
    |c: char| c != '\n'
}

/// The predicate of a string literal's munch: everything up to a quote.
pub open spec fn non_quote() -> spec_fn(char) -> bool {
    |c: char| c != '"'
}

/// The predicate of a number literal's munch.
pub open spec fn number_char() -> spec_fn(char) -> bool {
    |c: char| is_number_char(c)
}

/// The predicate of an identifier's munch.
pub open spec fn ident_char() -> spec_fn(char) -> bool {
    |c: char| is_ident_char(c)
}

pub proof fn lemma_seek_bounds(s: Seq<char>, i: int, p: spec_fn(char) -> bool)
    requires
        0 <= i <= s.len(),
    ensures
        i <= seek(s, i, p) <= s.len(),
        forall|k: int| i <= k < seek(s, i, p) ==> p(s[k]),
        seek(s, i, p) < s.len() ==> !p(s[seek(s, i, p)]),
    decreases s.len() - i,
{
    if i < s.len() && p(s[i]) {
        lemma_seek_bounds(s, i + 1, p);
    }
}

pub proof fn lemma_seek_exact(s: Seq<char>, i: int, p: spec_fn(char) -> bool, j: int)
    requires
        0 <= i <= j <= s.len(),
        forall|k: int| i <= k < j ==> p(s[k]),
        j < s.len() ==> !p(s[j]),
    ensures
        seek(s, i, p) == j,
    decreases j - i,
{
    if i < j {
        lemma_seek_exact(s, i + 1, p, j);
    }
}

// ---------------------------------------------------------------------------
// Line counting
// ---------------------------------------------------------------------------
/// The number of newline characters in `s` at positions in `[i, j)`.
pub open spec fn newlines(s: Seq<char>, i: int, j: int) -> nat
    decreases j - i,
{
    if i >= j {
        0
    } else {
        newlines(s, i, j - 1) + (if 0 <= j - 1 < s.len() && s[j - 1] == '\n' {
            1nat
        } else {
            0nat
        })
    }
}

// ---------------------------------------------------------------------------
// The model of a whole scan
// ---------------------------------------------------------------------------
/// What one scan produces: the ordered token models and the ordered
/// diagnostic models.
pub ghost struct ScanModel {
    pub tokens: Seq<TokenModel>,
    pub diags: Seq<DiagnosticModel>,
}

/// The empty scan result.
pub open spec fn scan_done() -> ScanModel {
    ScanModel { tokens: Seq::empty(), diags: Seq::empty() }
}

/// A scan result that emits one token and then continues as `rest`.
pub open spec fn with_token(t: TokenModel, rest: ScanModel) -> ScanModel {
    ScanModel { tokens: seq![t] + rest.tokens, diags: rest.diags }
}

/// A scan result that reports one diagnostic and then continues as `rest`.
pub open spec fn with_diag(d: DiagnosticModel, rest: ScanModel) -> ScanModel {
    ScanModel { tokens: rest.tokens, diags: seq![d] + rest.diags }
}

/// The tokens and diagnostics that scanning `s` from position `i` produces
/// when the current 1-based line number is `line`. This is the full
/// behavioral model of the scanner:
/// - the ten single-character punctuation/operator characters each emit one
///   token whose lexeme is that character;
/// - `!` `=` `<` `>` peek one character: a following `=` is consumed and the
///   two-character kind is emitted, otherwise (also at end of input) the
///   one-character kind is emitted;
/// - `//` starts a line comment, consumed up to but excluding the newline;
///   a lone `/` emits a `Slash` token (also at end of input);
/// - spaces, carriage returns and tabs are skipped; a newline increments the
///   line counter;
/// - `"` accumulates a string literal body up to the closing quote, which is
///   consumed but not included; embedded newlines count toward the line of
///   the emitted token; input exhausted first reports an unterminated string
///   literal and ends the scan;
/// - a digit munches digits and dots maximally; a lexeme ending in `.` is a
///   reported trailing-decimal error and emits nothing, otherwise a `Number`
///   token carries the lexeme text;
/// - a letter or `_` munches identifier characters maximally and emits the
///   keyword kind for `true`/`false`/`nil`, `Identifier` otherwise;
/// - anything else reports an unexpected character and the scan continues.
pub open spec fn scan_from(s: Seq<char>, i: int, line: nat) -> ScanModel
    decreases s.len() - i,
{
    if i < 0 || i >= s.len() {
        scan_done()
    } else {
        let c = s[i];
        if is_single_char_token(c) {
            with_token(
                TokenModel { token_type: single_char_kind(c), lexeme: seq![c], line },
                scan_from(s, i + 1, line),
            )
        } else if is_pairable(c) {
            if i + 1 < s.len() && s[i + 1] == '=' {
                with_token(
                    TokenModel { token_type: pair_kind(c), lexeme: seq![c, '='], line },
                    scan_from(s, i + 2, line),
                )
            } else {
                with_token(
                    TokenModel { token_type: lone_kind(c), lexeme: seq![c], line },
                    scan_from(s, i + 1, line),
                )
            }
        } else if c == '/' {
            if i + 1 < s.len() && s[i + 1] == '/' {
                let j = seek(s, i + 2, non_newline());
                proof {
                    lemma_seek_bounds(s, i + 2, non_newline());
                }
                scan_from(s, j, line)
            } else {
                with_token(
                    TokenModel { token_type: TokenType::Slash, lexeme: seq![c], line },
                    scan_from(s, i + 1, line),
                )
            }
        } else if c == ' ' || c == '\r' || c == '\t' {
            scan_from(s, i + 1, line)
        } else if c == '\n' {
            scan_from(s, i + 1, line + 1)
        } else if c == '"' {
            let j = seek(s, i + 1, non_quote());
            let close_line = line + newlines(s, i + 1, j);
            proof {
                lemma_seek_bounds(s, i + 1, non_quote());
            }
            if j >= s.len() {
                ScanModel {
                    tokens: Seq::empty(),
                    diags: seq![
                        DiagnosticModel { line: close_line, kind: ScanErrorKind::UnterminatedString },
                    ],
                }
            } else {
                with_token(
                    TokenModel {
                        token_type: TokenType::String,
                        lexeme: s.subrange(i + 1, j),
                        line: close_line,
                    },
                    scan_from(s, j + 1, close_line),
                )
            }
        } else if is_digit(c) {
            let j = seek(s, i, number_char());
            proof {
                lemma_seek_bounds(s, i + 1, number_char());
            }
            if s[j - 1] == '.' {
                with_diag(
                    DiagnosticModel { line, kind: ScanErrorKind::TrailingDecimal },
                    scan_from(s, j, line),
                )
            } else {
                with_token(
                    TokenModel { token_type: TokenType::Number, lexeme: s.subrange(i, j), line },
                    scan_from(s, j, line),
                )
            }
        } else if is_alpha(c) {
            let j = seek(s, i, ident_char());
            proof {
                lemma_seek_bounds(s, i + 1, ident_char());
            }
            with_token(
                TokenModel { token_type: keyword_kind(s.subrange(i, j)), lexeme: s.subrange(i, j), line },
                scan_from(s, j, line),
            )
        } else {
            with_diag(
                DiagnosticModel { line, kind: ScanErrorKind::UnexpectedCharacter },
                scan_from(s, i + 1, line),
            )
        }
    }
}

/// Law: scanning a source that consists of exactly one punctuation or
/// operator character emits exactly one token of the matching kind, whose
/// lexeme is that character, and no diagnostics. For the two-character
/// operator family and `/` this is the end-of-input edge case: the
/// one-character form is emitted even though no lookahead character exists.
pub proof fn lemma_single_char_scan(c: char)
    requires
        is_single_char_token(c) || is_pairable(c) || c == '/',
    ensures
        scan_from(seq![c], 0, 1).tokens == seq![
            TokenModel {
                token_type: if is_single_char_token(c) {
                    single_char_kind(c)
                } else if is_pairable(c) {
                    lone_kind(c)
                } else {
                    TokenType::Slash
                },
                lexeme: seq![c],
                line: 1,
            },
        ],
        scan_from(seq![c], 0, 1).diags == Seq::<DiagnosticModel>::empty(),
{
    let s = seq![c];
    assert(scan_from(s, 1, 1) == scan_done());
    let t = TokenModel {
        token_type: if is_single_char_token(c) {
            single_char_kind(c)
        } else if is_pairable(c) {
            lone_kind(c)
        } else {
            TokenType::Slash
        },
        lexeme: seq![c],
        line: 1,
    };
    assert(scan_from(s, 0, 1) == with_token(t, scan_done()));
    assert(seq![t] + Seq::<TokenModel>::empty() =~= seq![t]);
}

/// Law: scanning a source that consists of one of `!` `=` `<` `>` followed
/// by `=` emits exactly one token of the two-character kind, whose lexeme is
/// both characters, and no diagnostics: the `=` is consumed, never re-read.
pub proof fn lemma_two_char_scan(c: char)
    requires
        is_pairable(c),
    ensures
        scan_from(seq![c, '='], 0, 1).tokens == seq![
            TokenModel { token_type: pair_kind(c), lexeme: seq![c, '='], line: 1 },
        ],
        scan_from(seq![c, '='], 0, 1).diags == Seq::<DiagnosticModel>::empty(),
{
    let s = seq![c, '='];
    assert(scan_from(s, 2, 1) == scan_done());
    let t = TokenModel { token_type: pair_kind(c), lexeme: seq![c, '='], line: 1 };
    assert(scan_from(s, 0, 1) == with_token(t, scan_done()));
    assert(seq![t] + Seq::<TokenModel>::empty() =~= seq![t]);
}

// ---------------------------------------------------------------------------
// Executable character classification
// ---------------------------------------------------------------------------
fn single_kind_of(c: char) -> (r: Option<TokenType>)
    ensures
        match r {
            Some(k) => is_single_char_token(c) && k == single_char_kind(c),
            None => !is_single_char_token(c),
        },
{
    match c {
        '(' => Some(TokenType::LeftParen),
        ')' => Some(TokenType::RightParen),
        '{' => Some(TokenType::LeftBrace),
        '}' => Some(TokenType::RightBrace),
        ',' => Some(TokenType::Comma),
        '.' => Some(TokenType::Dot),
        '-' => Some(TokenType::Minus),
        '+' => Some(TokenType::Plus),
        ';' => Some(TokenType::Semicolon),
        '*' => Some(TokenType::Star),
        _ => None,
    }
}

fn pair_kinds_of(c: char) -> (r: Option<(TokenType, TokenType)>)
    ensures
        match r {
            Some(ks) => is_pairable(c) && ks.0 == pair_kind(c) && ks.1 == lone_kind(c),
            None => !is_pairable(c),
        },
{
    match c {
        '!' => Some((TokenType::BangEqual, TokenType::Bang)),
        '=' => Some((TokenType::EqualEqual, TokenType::Equal)),
        '<' => Some((TokenType::LessEqual, TokenType::Less)),
        '>' => Some((TokenType::GreaterEqual, TokenType::Greater)),
        _ => None,
    }
}

pub(crate) fn digit_check(c: char) -> (r: bool)
    ensures
        r == is_digit(c),
{
    let u = c as u32;
    48 <= u && u <= 57
}

fn alpha_check(c: char) -> (r: bool)
    ensures
        r == is_alpha(c),
{
    let u = c as u32;
    (97 <= u && u <= 122) || (65 <= u && u <= 90) || c == '_'
}

fn ident_char_check(c: char) -> (r: bool)
    ensures
        r == is_ident_char(c),
{
    alpha_check(c) || digit_check(c)
}

pub(crate) fn number_char_check(c: char) -> (r: bool)
    ensures
        r == is_number_char(c),
{
    digit_check(c) || c == '.'
}

/// The owned copy of the source characters in `[from, to)`.
fn lexeme_of(source: &str, from: usize, to: usize) -> (r: String)
    requires
        from <= to <= source@.len(),
    ensures
        r@ == source@.subrange(from as int, to as int),
{
    source.substring_char(from, to).to_owned()
}

/// The keyword kind of the identifier-shaped run in `[from, to)`.
fn keyword_kind_of(source: &str, from: usize, to: usize) -> (r: TokenType)
    requires
        from < to <= source@.len(),
    ensures
        r == keyword_kind(source@.subrange(from as int, to as int)),
{
    let ghost lex = source@.subrange(from as int, to as int);
    if to - from == 4 && source.get_char(from) == 't' && source.get_char(from + 1) == 'r'
        && source.get_char(from + 2) == 'u' && source.get_char(from + 3) == 'e' {
        proof {
            assert(lex =~= seq!['t', 'r', 'u', 'e']);
        }
        TokenType::True
    } else if to - from == 5 && source.get_char(from) == 'f' && source.get_char(from + 1) == 'a'
        && source.get_char(from + 2) == 'l' && source.get_char(from + 3) == 's' && source.get_char(
        from + 4,
    ) == 'e' {
        proof {
            assert(lex =~= seq!['f', 'a', 'l', 's', 'e']);
        }
        TokenType::False
    } else if to - from == 3 && source.get_char(from) == 'n' && source.get_char(from + 1) == 'i'
        && source.get_char(from + 2) == 'l' {
        proof {
            assert(lex =~= seq!['n', 'i', 'l']);
        }
        TokenType::Nil
    } else {
        proof {
            if lex == seq!['t', 'r', 'u', 'e'] {
                assert(lex.len() == 4 && lex[0] == 't' && lex[1] == 'r' && lex[2] == 'u' && lex[3]
                    == 'e');
            }
            if lex == seq!['f', 'a', 'l', 's', 'e'] {
                assert(lex.len() == 5 && lex[0] == 'f' && lex[1] == 'a' && lex[2] == 'l' && lex[3]
                    == 's' && lex[4] == 'e');
            }
            if lex == seq!['n', 'i', 'l'] {
                assert(lex.len() == 3 && lex[0] == 'n' && lex[1] == 'i' && lex[2] == 'l');
            }
        }
        TokenType::Identifier
    }
}

// ---------------------------------------------------------------------------
// Accumulation lemmas
// ---------------------------------------------------------------------------
proof fn lemma_shift_token(acc: Seq<Token>, t: Token, rest: Seq<TokenModel>)
    ensures
        token_models(acc) + (seq![t@] + rest) == token_models(acc.push(t)) + rest,
{
    assert(token_models(acc.push(t)) =~= token_models(acc) + seq![t@]);
    assert(token_models(acc) + (seq![t@] + rest) =~= (token_models(acc) + seq![t@]) + rest);
}

proof fn lemma_shift_diag(acc: Seq<Diagnostic>, d: Diagnostic, rest: Seq<DiagnosticModel>)
    ensures
        diagnostic_models(acc) + (seq![d@] + rest) == diagnostic_models(acc.push(d)) + rest,
{
    assert(diagnostic_models(acc.push(d)) =~= diagnostic_models(acc) + seq![d@]);
    assert(diagnostic_models(acc) + (seq![d@] + rest) =~= (diagnostic_models(acc) + seq![d@])
        + rest);
}

// ---------------------------------------------------------------------------
// The scanner
// ---------------------------------------------------------------------------
/// Scans a complete source text into its token sequence and the diagnostics
/// reported along the way. The result is exactly the model `scan_from` of the
/// whole text, started at its first character on line 1: anomalies never stop
/// the scan, they only leave the offending lexeme out of the token sequence.
pub fn scan_tokens(contents: String) -> (r: (Vec<Token>, Vec<Diagnostic>))
    requires
        contents@.len() < usize::MAX,
    ensures
        token_models(r.0@) == scan_from(contents@, 0, 1).tokens,
        diagnostic_models(r.1@) == scan_from(contents@, 0, 1).diags,
{
    let source: &str = contents.as_str();
    let n: usize = source.unicode_len();
    let ghost s = source@;
    let ghost total = scan_from(s, 0, 1);
    let mut tokens: Vec<Token> = Vec::new();
    let mut diags: Vec<Diagnostic> = Vec::new();
    let mut i: usize = 0;
    let mut line: usize = 1;
    while i < n
        invariant
            s == contents@,
            source@ == s,
            n == s.len(),
            n < usize::MAX,
            i <= n,
            1 <= line <= i + 1,
            total == scan_from(s, 0, 1),
            token_models(tokens@) + scan_from(s, i as int, line as nat).tokens == total.tokens,
            diagnostic_models(diags@) + scan_from(s, i as int, line as nat).diags == total.diags,
        decreases n - i,
    {
        let ghost here = scan_from(s, i as int, line as nat);
        let c = source.get_char(i);
        if let Some(kind) = single_kind_of(c) {
            let tok = Token { token_type: kind, lexeme: lexeme_of(source, i, i + 1), line };
            proof {
                assert(tok@.lexeme =~= seq![c]);
                lemma_shift_token(tokens@, tok, scan_from(s, i + 1, line as nat).tokens);
            }
            tokens.push(tok);
            i = i + 1;
        } else if let Some((two, one)) = pair_kinds_of(c) {
            if i + 1 < n && source.get_char(i + 1) == '=' {
                let tok = Token { token_type: two, lexeme: lexeme_of(source, i, i + 2), line };
                proof {
                    assert(tok@.lexeme =~= seq![c, '=']);
                    lemma_shift_token(tokens@, tok, scan_from(s, i + 2, line as nat).tokens);
                }
                tokens.push(tok);
                i = i + 2;
            } else {
                let tok = Token { token_type: one, lexeme: lexeme_of(source, i, i + 1), line };
                proof {
                    assert(tok@.lexeme =~= seq![c]);
                    lemma_shift_token(tokens@, tok, scan_from(s, i + 1, line as nat).tokens);
                }
                tokens.push(tok);
                i = i + 1;
            }
        } else if c == '/' {
            if i + 1 < n && source.get_char(i + 1) == '/' {
                let mut j = i + 2;
                while j < n && source.get_char(j) != '\n'
                    invariant
                        source@ == s,
                        n == s.len(),
                        i + 2 <= j <= n,
                        forall|k: int| i + 2 <= k < j ==> s[k] != '\n',
                    decreases n - j,
                {
                    j = j + 1;
                }
                proof {
                    assert(forall|k: int| i + 2 <= k < j ==> non_newline()(s[k]));
                    assert(j < s.len() ==> !non_newline()(s[j as int]));
                    lemma_seek_exact(s, i + 2, non_newline(), j as int);
                }
                i = j;
            } else {
                let tok = Token {
                    token_type: TokenType::Slash,
                    lexeme: lexeme_of(source, i, i + 1),
                    line,
                };
                proof {
                    assert(tok@.lexeme =~= seq![c]);
                    lemma_shift_token(tokens@, tok, scan_from(s, i + 1, line as nat).tokens);
                }
                tokens.push(tok);
                i = i + 1;
            }
        } else if c == ' ' || c == '\r' || c == '\t' {
            i = i + 1;
        } else if c == '\n' {
            line = line + 1;
            i = i + 1;
        } else if c == '"' {
            let mut j = i + 1;
            let mut embedded: usize = 0;
            while j < n && source.get_char(j) != '"'
                invariant
                    source@ == s,
                    n == s.len(),
                    i + 1 <= j <= n,
                    forall|k: int| i + 1 <= k < j ==> s[k] != '"',
                    embedded == newlines(s, i + 1, j as int),
                    embedded <= j - i - 1,
                decreases n - j,
            {
                if source.get_char(j) == '\n' {
                    embedded = embedded + 1;
                }
                j = j + 1;
            }
            proof {
                assert(forall|k: int| i + 1 <= k < j ==> non_quote()(s[k]));
                assert(j < s.len() ==> !non_quote()(s[j as int]));
                lemma_seek_exact(s, i + 1, non_quote(), j as int);
            }
            if j >= n {
                let d = Diagnostic { line: line + embedded, kind: ScanErrorKind::UnterminatedString };
                proof {
                    assert(diagnostic_models(diags@.push(d)) =~= diagnostic_models(diags@) + seq![
                        d@,
                    ]);
                }
                diags.push(d);
                i = n;
            } else {
                let tok = Token {
                    token_type: TokenType::String,
                    lexeme: lexeme_of(source, i + 1, j),
                    line: line + embedded,
                };
                proof {
                    lemma_shift_token(
                        tokens@,
                        tok,
                        scan_from(s, j + 1, (line + embedded) as nat).tokens,
                    );
                }
                tokens.push(tok);
                line = line + embedded;
                i = j + 1;
            }
        } else if digit_check(c) {
            let mut j = i + 1;
            while j < n && number_char_check(source.get_char(j))
                invariant
                    source@ == s,
                    n == s.len(),
                    i + 1 <= j <= n,
                    forall|k: int| i + 1 <= k < j ==> is_number_char(s[k]),
                decreases n - j,
            {
                j = j + 1;
            }
            proof {
                assert(forall|k: int| i <= k < j ==> number_char()(s[k]));
                assert(j < s.len() ==> !number_char()(s[j as int]));
                lemma_seek_exact(s, i as int, number_char(), j as int);
            }
            if source.get_char(j - 1) == '.' {
                let d = Diagnostic { line, kind: ScanErrorKind::TrailingDecimal };
                proof {
                    lemma_shift_diag(diags@, d, scan_from(s, j as int, line as nat).diags);
                }
                diags.push(d);
                i = j;
            } else {
                let tok = Token { token_type: TokenType::Number, lexeme: lexeme_of(source, i, j), line };
                proof {
                    lemma_shift_token(tokens@, tok, scan_from(s, j as int, line as nat).tokens);
                }
                tokens.push(tok);
                i = j;
            }
        } else if alpha_check(c) {
            let mut j = i + 1;
            while j < n && ident_char_check(source.get_char(j))
                invariant
                    source@ == s,
                    n == s.len(),
                    i + 1 <= j <= n,
                    forall|k: int| i + 1 <= k < j ==> is_ident_char(s[k]),
                decreases n - j,
            {
                j = j + 1;
            }
            proof {
                assert(forall|k: int| i <= k < j ==> ident_char()(s[k]));
                assert(j < s.len() ==> !ident_char()(s[j as int]));
                lemma_seek_exact(s, i as int, ident_char(), j as int);
            }
            let kind = keyword_kind_of(source, i, j);
            let tok = Token { token_type: kind, lexeme: lexeme_of(source, i, j), line };
            proof {
                lemma_shift_token(tokens@, tok, scan_from(s, j as int, line as nat).tokens);
            }
            tokens.push(tok);
            i = j;
        } else {
            let d = Diagnostic { line, kind: ScanErrorKind::UnexpectedCharacter };
            proof {
                lemma_shift_diag(diags@, d, scan_from(s, i + 1, line as nat).diags);
            }
            diags.push(d);
            i = i + 1;
        }
    }
    (tokens, diags)
}

} // verus!
