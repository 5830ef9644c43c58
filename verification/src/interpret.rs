//! The compiler and the execution engine.

pub mod ast;
pub mod branches;
pub mod consistency;
pub mod error;
pub mod evaluate;
pub mod grammar;
pub mod laws;
pub mod lexer;
pub mod op;
pub mod parser;
pub mod runtime;
pub mod scanner;
pub mod semantics;
pub mod text;
