//! The command line: which command the arguments spell, and what it comes
//! to.

pub mod commands;
pub mod errors;
