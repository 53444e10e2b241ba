//! Language support for the Organic music programming language: a verified
//! lexer, semantic-token encoding, diagnostics, the grammar's helper actions
//! and the name analyzer.
pub mod lexer;

pub mod errors;
pub mod lsp;
pub mod parser;
pub mod text;
pub mod analyzer;
