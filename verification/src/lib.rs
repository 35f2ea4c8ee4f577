//! A verified arithmetic-expression calculator.
//!
//! The crate evaluates a single expression given as text: a tokenizer turns
//! the input bytes into a stack of tokens whose pop order matches the text's
//! left-to-right order, and a precedence-climbing evaluator drains that stack
//! to produce an exact rational result or a descriptive error.

pub mod arithmetic;
pub mod evaluator;
pub mod stack;
pub mod tokenizer;
