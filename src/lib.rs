//! Front end of the Iona compiler: lexer, per-line grammars, parse dispatcher,
//! expression parser, scope pass and function table.
pub mod compiler_errors;
pub mod function_table;
pub mod grammars;
pub mod lex;
pub mod parse;
pub mod permissions;
pub mod properties;
pub mod text;
pub mod parse_expressions;
pub mod fused;
pub mod codegen_c;
