use vstd::prelude::*;

verus! {

/// Why a command could not be understood or carried out.
#[derive(Debug, PartialEq, Eq)]
pub struct CommandError {
    pub message: String,
}

impl CommandError {
    /// An error with the given message.
    pub fn new(message: String) -> (error: Self)
        ensures
            error.message == message,
    {
        CommandError { message }
    }

    /// The message, as the error is shown to a person.
    pub fn to_string(&self) -> (text: String)
        ensures
            text@ == self.message@,
    {
        self.message.clone()
    }
}

} // verus!
