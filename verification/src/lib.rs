//! An ahead-of-time compiler for a small language of 64-bit integer
//! arithmetic: source text becomes tokens, tokens become a syntax tree, and
//! the tree is lowered to a linear intermediate representation from which a
//! relocatable object file is emitted. The driver decides the steps of a
//! compilation, and the command line says which command the arguments
//! spell.
//!
//! Beside the compiler stands Amarok, a small scripting language: its
//! lexer and parsers, its syntax tree and its interpreter.

pub mod amarok;
pub mod cli;
pub mod codegen;
pub mod driver;
pub mod syntax;
pub mod text;
