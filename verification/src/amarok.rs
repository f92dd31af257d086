//! The Amarok scripting language: its lexers and parsers, its syntax tree
//! and its interpreter.

pub mod commands;
pub mod errors;
pub mod expression;
pub mod interpreter;
pub mod lexer;
pub mod literal;
pub mod parser;
pub mod report;
pub mod semantics;
pub mod span;
pub mod statement;
pub mod syntax;
pub mod token;
pub mod tree;
pub mod value;
