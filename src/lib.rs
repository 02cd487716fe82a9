//! Front end and tree-walking interpreter for a small expression and
//! statement language: lexing, parsing and evaluation with lexical scopes.
pub mod text;
pub mod error;
pub mod token;
pub mod scanner;
pub mod number;
pub mod value;
pub mod environment;
pub mod ast;
pub mod interpreter;
pub mod parser;
pub mod token_kind;
pub mod env;
pub mod command;
pub mod round_trip;
