//! Interpreter for a small language that describes the byte layout of a
//! record, and a generator of random byte sequences that follow the layout.
//!
//! The stages are text to tokens (`lexer`), tokens to statements (`parser`),
//! statements to a validated environment (`evaluator`) and environment to
//! bytes (`generator`).

pub mod error;
pub mod evaluator;
pub mod generator;
pub mod lexer;
pub mod parser;
pub mod random;
pub mod text;
