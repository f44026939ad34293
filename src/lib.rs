//! Lexer, parser and scoping core of a small dynamically typed scripting
//! language, verified with Verus.
//!
//! - `lexer` turns source text into tokens (`token`), proved equal to the
//!   character-level rules of `lex_from`.
//! - `parser` turns tokens into syntax trees (`ast`), proved equal to the
//!   recursive-descent grammar written as spec functions in `grammar`.
//! - `environment` is the chain of scopes that evaluation runs in.
//! - `runtime` holds the evaluator's rules on integers, strings and lists.
//! - `text` holds small character-level helpers.

pub mod ast;
pub mod environment;
pub mod grammar;
pub mod lexer;
pub mod parser;
pub mod runtime;
pub mod text;
pub mod token;
