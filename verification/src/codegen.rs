//! Lowering of a program to the intermediate representation, and emission
//! of the object file.

pub mod backend;
pub mod emit;
pub mod error;
pub mod ir;
pub mod lower;
pub mod meaning;
pub mod native;
pub mod preservation;

use crate::codegen::emit::{compile_program, may_generate};
use crate::codegen::error::CodegenError;
use crate::syntax::ast::ProgramNode;
use vstd::prelude::*;

verus! {

/// Compiles a program into an object file in memory. The bytes returned are
/// a complete object file that the system linker can consume.
pub fn compile_program_to_object(program: &ProgramNode) -> (result: Result<Vec<u8>, CodegenError>)
    ensures
        may_generate(program@, result),
{
    compile_program(program)
}

} // verus!
