//! C+ to C: lexing, parsing, the ownership check, C generation, and the build
//! arguments, each with a contract that states its result exactly.
pub mod text;
pub mod ast;
pub mod ast_clone;
pub mod lexer;
pub mod lexer_laws;
pub mod parser_spec;
pub mod parser;
pub mod parser_laws;
pub mod checker;
pub mod checker_laws;
pub mod codegen_spec;
pub mod codegen;
pub mod codegen_laws;
pub mod config;
pub mod cli;
pub mod builder;
pub mod transpiler;
pub mod report;
pub mod laws;
