//! A small stack-machine interpreter for a textual, s-expression module
//! format: a tokenizer, a single-pass bytecode compiler that resolves every
//! branch to an absolute program counter, and an execution engine.
//!
//! Every function of the library carries a contract that Verus proves.

pub mod interpret;
pub mod repl;
