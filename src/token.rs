use vstd::prelude::*;

verus! {

/// One lexical unit. A token owns the data it carries: an identifier's text
/// is copied out of the input.
#[derive(Debug, PartialEq, Clone)]
pub enum Token {
    /// A character that no rule matches.
    ILLEGAL,
    /// The input is exhausted.
    EOF,
    /// A digit run whose value does not fit in a `u32`.
    OVERFLOW,
    IDENT(String),
    INT(u32),
    ASSIGN,
    PLUS,
    MINUS,
    EQUALS,
    NOTEQUALS,
    BANG,
    ASTERISK,
    SLASH,
    LT,
    GT,
    COMA,
    SEMICOLON,
    LPAREN,
    RPAREN,
    LBRACE,
    RBRACE,
    FUNCTION,
    LET,
    TRUE,
    FALSE,
}

} // verus!
