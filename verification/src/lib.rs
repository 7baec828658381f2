//! A compiler for a small subset of C that lowers programs to MARIE assembly.

pub mod ast;
pub mod codegen;
pub mod compiler;
pub mod error;
pub mod grammar;
pub mod grammar_facts;
pub mod lexer;
pub mod parser;
pub mod paths;
pub mod pretty;
pub mod semantic;
pub mod symbols;
pub mod syntax_errors;
pub mod text;
