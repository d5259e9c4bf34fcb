pub mod analyzer;
pub mod ast;
pub mod bigint;
pub mod cfg;
pub mod codegen;
pub mod common;
pub mod compile;
pub mod context;
pub mod lexer;
pub mod parser;
pub mod scope;
pub mod table;
pub mod text;
pub mod token;
