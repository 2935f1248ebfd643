//! A static checker for a boolean search-query language.
//!
//! The pipeline is: text -> lexer -> tokens -> parser -> expression tree ->
//! rule-based validation -> ordered diagnostics.  Every stage is specified
//! against a mathematical model of the same pipeline, so that the tokens,
//! the tree and the diagnostics are pinned down exactly by the contracts.

pub mod ast;
pub mod chars;
pub mod error;
pub mod lex_model;
pub mod lexer;
pub mod numeric;
pub mod parser;
pub mod rules;
pub mod validation;
