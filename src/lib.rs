//! Lexical analysis for a small expression language: turns source text into
//! a stream of typed tokens, one token per call.
pub mod laws;
pub mod lexer;
pub mod model;
pub mod token;

pub use lexer::Lexer;
pub use token::Token;
