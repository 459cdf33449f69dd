//! Lexical scanner: token model and tokenizer.

pub mod lexer;
pub mod token;
pub mod types;
