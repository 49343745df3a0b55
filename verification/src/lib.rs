//! Syntactic analysis for an indentation-sensitive contract-definition
//! language: a classified token stream goes in, a typed syntax tree or a
//! located failure comes out.

pub mod ast;
pub mod errors;
pub mod grammar;
pub mod laws;
pub mod parsers;
pub mod text;
pub mod tokens;
