//! A minimal interpreter for a stack-based, Forth-like concatenative
//! language: whitespace tokenization, an integer operand stack, a dispatch
//! table of stack operators, and a dictionary of user-defined words.

pub mod error;
pub mod interp;
pub mod interpreter;
pub mod op;
pub mod render;
pub mod stack;
pub mod utils;
