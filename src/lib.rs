//! A lexical scanner for a small imperative language with integers,
//! arrays and a handful of keywords.
pub mod lexeme;
pub mod token;
pub mod tokenizer;

pub use token::{ScanError, Token};
pub use tokenizer::Tokenizer;
