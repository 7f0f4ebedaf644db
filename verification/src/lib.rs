//! Front end for a small text-templating language: a character-level
//! tokenizer and a recursive-descent, precedence-climbing parser that turn
//! template source text (literal text interspersed with `<...>` expression
//! blocks) into an abstract syntax tree.

pub mod ast;
pub mod base_parser;
pub mod chain_reader;
pub mod errors;
pub mod lexer;
pub mod parser;
pub mod token;
pub mod utils;
