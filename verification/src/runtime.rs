//! Evaluation: name tables, operators, and the evaluator with its rules.

pub mod derived;
pub mod environment;
pub mod interpreter;
pub mod machine;
pub mod operators;
pub mod preservation;
pub mod scoping;
