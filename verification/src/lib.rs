//! A single-pass compiler for a minimal source language (`.ed` files),
//! translating them into C source text.
//!
//! The pipeline has three cooperating stages: a pull-based lexical scanner
//! (`lexer`), a recursive-descent parser (`parser`) that performs semantic
//! checks as it goes, and a flat symbol table (`symbol_table`). Recognised
//! constructs are emitted immediately as C text fragments by the code
//! generator (`codegen`); there is no intermediate representation.

pub mod chars;
pub mod codegen;
pub mod decimal;
pub mod errors;
pub mod lexer;
pub mod parser;
pub mod symbol_table;
pub mod tokens;
