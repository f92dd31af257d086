use vstd::prelude::*;
use vstd::string::StringExecFns;

verus! {

/// The stage of code generation that failed.
#[derive(Debug, Clone, Copy, PartialEq, Eq, Structural)]
pub enum CodegenReason {
    /// The host's instruction set cannot be configured or is not supported.
    Target,
    /// A name is read before any declaration of it.
    UndefinedVariable,
    /// The program has no statement, so there is no value to return.
    EmptyProgram,
    /// The object file could not be put together.
    Emission,
}

/// A failure of code generation: the stage, and a message for a person.
#[derive(Debug, PartialEq, Eq)]
pub struct CodegenError {
    pub reason: CodegenReason,
    pub message: String,
}

/// The message for a name that is read before it is declared.
pub open spec fn undefined_variable_message(name: Seq<char>) -> Seq<char> {
    "Undefined variable: "@ + name
}

/// The message for a program without statements.
pub open spec fn empty_program_message() -> Seq<char> {
    "Program had no statements"@
}

/// `context`, a colon and a space, then `detail`.
pub open spec fn explained(context: Seq<char>, detail: Seq<char>) -> Seq<char> {
    context + ": "@ + detail
}

impl CodegenError {
    /// An error of the given stage with the given message.
    pub fn new(reason: CodegenReason, message: String) -> (error: Self)
        ensures
            error.reason == reason,
            error.message == message,
    {
        CodegenError { reason, message }
    }

    /// The error for a read of `name` before any declaration of it.
    pub fn undefined_variable(name: &str) -> (error: Self)
        ensures
            error.reason == CodegenReason::UndefinedVariable,
            error.message@ == undefined_variable_message(name@),
    {
        let mut message = String::from_str("Undefined variable: ");
        message.append(name);
        CodegenError { reason: CodegenReason::UndefinedVariable, message }
    }

    /// The error for a program without statements.
    pub fn empty_program() -> (error: Self)
        ensures
            error.reason == CodegenReason::EmptyProgram,
            error.message@ == empty_program_message(),
    {
        CodegenError {
            reason: CodegenReason::EmptyProgram,
            message: String::from_str("Program had no statements"),
        }
    }

    /// The error of the given stage whose message is `context`, a colon and
    /// a space, then `detail`.
    pub fn explain(reason: CodegenReason, context: &str, detail: &str) -> (error: Self)
        ensures
            error.reason == reason,
            error.message@ == explained(context@, detail@),
    {
        let mut message = String::from_str(context);
        message.append(": ");
        message.append(detail);
        CodegenError { reason, message }
    }

    /// The message, as the error is shown to a person.
    pub fn to_string(&self) -> (text: String)
        ensures
            text@ == self.message@,
    {
        self.message.clone()
    }
}

} // verus!
