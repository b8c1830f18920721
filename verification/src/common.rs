//! Data shared by every stage: text helpers, positions, tokens, errors and values.

pub mod ast;
pub mod error;
pub mod number;
pub mod object;
pub mod position;
pub mod text;
pub mod token;
