//! A lexer for a small imperative language: it turns source text into a
//! stream of classified tokens, one per call, ending in a repeating `EOF`.

pub mod lexer;
pub mod stream;
pub mod text;
pub mod token;

pub use lexer::Lexer;
pub use token::{Token, TokenKind};
