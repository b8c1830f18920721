//! A small dynamically-typed scripting language: variables, functions,
//! conditional expressions, arrays, and four built-in statements for the
//! console and for arrays.
//!
//! A source text goes through three stages. The scanner in `frontend::lexer`
//! turns characters into tokens, the parser in `frontend::parser` turns tokens
//! into a syntax tree, and the evaluator in `runtime::interpreter` executes the
//! tree. Each stage is held to a mathematical description of what it gives:
//! the scanner to `frontend::lexer::lex_from`, the parser to the grammar in
//! `frontend::grammar`, the evaluator to the rules in `runtime::machine`.
//!
//! The evaluator advances in single steps. It never reads, prints or
//! calculates with floating-point numbers itself: each step says what its host
//! is to do, and the next step takes the host's answer. A number is a double
//! and is carried as its bit pattern; the host converts digits, does the
//! arithmetic and prints.

pub mod common;
pub mod frontend;
pub mod runtime;
