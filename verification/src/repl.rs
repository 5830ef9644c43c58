//! The command language of the interactive shell: its tokens, its
//! commands, and what the engine answers to each.

pub mod lexer;
pub mod parser;
