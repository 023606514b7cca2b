//! Lexer, parser, syntax tree, typed tree and semantic analysis.

pub mod tokens;
pub mod lexer;
pub mod ast;
pub mod parser;
pub mod typed_ast;
pub mod analyze;
pub mod ir;
