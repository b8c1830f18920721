//! From source text to a syntax tree.

pub mod grammar;
pub mod lexer;
pub mod parser;
pub mod progress;
pub mod shape;
