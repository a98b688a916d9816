//! An interpreter for a small dynamically typed scripting language:
//! scanning, recursive-descent parsing and tree-walking evaluation.
pub mod ast;
pub mod environment;
pub mod grammar;
pub mod interpreter;
pub mod lox;
pub mod number;
pub mod parser;
pub mod scanner;
pub mod semantics;
pub mod token;
pub mod value;
