//! A small block-structured imperative language with declarations, procedures,
//! conditionals, loops, line-oriented input and output, and a `move` discipline on
//! variables.
//!
//! - `ast`: the abstract syntax, with its mathematical views.
//! - `text`, `grammar`, `parser`: the grammar as functions on character sequences,
//!   and the recursive-descent parser proved to compute them.
//! - `environment`, `runtime`: the chains of lexical scopes of the analyzer and of
//!   the executor.
//! - `diagnostics`: the problems reported and their texts.
//! - `semantic`: the analyzer, proved to compute `semantic::check_cmd`.
//! - `executor`: the interpreter, proved to compute `executor::exec`.
pub mod ast;
pub mod text;
pub mod grammar;
pub mod parser;
pub mod environment;
pub mod diagnostics;
pub mod semantic;
pub mod runtime;
pub mod executor;
