//! Front end for a small C-like expression language: a lexical scanner that
//! turns source text into a token stream, and a recursive-descent parser that
//! turns that stream into expression trees under a fixed operator-precedence
//! grammar (with a ternary conditional and a left-biased comma operator).

pub mod expr;
pub mod parser;
pub mod printer;
pub mod scanner;
pub mod token;
