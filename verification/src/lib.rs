//! Front end for a small typed lambda calculus with a System-F-style type
//! layer: a lexer that turns source text into a position-annotated token
//! stream, and a recursive-descent parser that turns the token stream into a
//! raw (unchecked) abstract syntax tree of definitions, terms, types and
//! kinds.

pub mod ast;
pub mod lex;
pub mod parse;
pub mod props;
pub mod spans;
