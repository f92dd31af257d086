use vstd::prelude::*;

verus! {

/// The step of a compilation that failed.
#[derive(Debug, Clone, Copy, PartialEq, Eq, Structural)]
pub enum DriverStage {
    /// The source file could not be read.
    ReadError,
    /// The source is no program.
    ParseFailed,
    /// No object file could be generated.
    CodegenFailed,
    /// The object file could not be written.
    WriteError,
    /// The linker could not be started, or it reported a failure.
    LinkFailed,
}

/// A failed compilation: the step that failed, and a message for a person
/// that carries the cause.
#[derive(Debug, PartialEq, Eq)]
pub struct DriverError {
    pub stage: DriverStage,
    pub message: String,
}

impl DriverError {
    /// An error of the given step with the given message.
    pub fn new(stage: DriverStage, message: String) -> (error: Self)
        ensures
            error.stage == stage,
            error.message == message,
    {
        DriverError { stage, message }
    }

    /// The message, as the error is shown to a person.
    pub fn to_string(&self) -> (text: String)
        ensures
            text@ == self.message@,
    {
        self.message.clone()
    }
}

} // verus!
