//! A small bracketed expression language: token trees, a recursive-descent
//! parser, a structural trace printer and a lowering pass that emits Rust
//! expression tokens.
//!
//! The two entry points are [`print_ast`], which parses a token sequence
//! and prints the shape of the expression, and [`interp`], which parses
//! it and lowers the expression to the tokens of a Rust expression.
//!
//! - [`token`], [`lexer`]: token trees, and how they come from text.
//! - [`operator`]: the binary operators and the matcher that finds them.
//! - [`classify`]: what `syn` says of literals, identifiers and types.
//! - [`syntax`], [`error`]: the syntax tree and the failures.
//! - [`grammar`], [`parser`]: what the language is, and the parser for it.
//! - [`printer`], [`lower`], [`constructor`], [`spelling`]: what is made
//!   of a syntax tree.
//! - [`laws`]: what holds of all of these together.

pub mod classify;
pub mod constructor;
pub mod error;
pub mod grammar;
pub mod laws;
pub mod lexer;
pub mod lower;
pub mod operator;
pub mod parser;
pub mod printer;
pub mod spelling;
pub mod syntax;
pub mod text;
pub mod token;
pub mod vecs;

pub use lower::interp;
pub use printer::print_ast;
