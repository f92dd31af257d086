use vstd::prelude::*;
use vstd::string::StringExecFns;

verus! {

/// The exit status that an error of the command line asks for.
#[derive(Debug, Clone, Copy, PartialEq, Eq, Structural)]
pub enum ExitCode {
    /// The command line was not understood.
    Usage,
    /// The program did not compile.
    Compile,
    /// The program failed while it ran.
    Runtime,
}

impl ExitCode {
    /// The status with which the process exits: 64 for a usage error, 65
    /// for a compile error, 70 for a runtime error.
    pub fn status(&self) -> (status: i32)
        ensures
            status == match self {
                ExitCode::Usage => 64i32,
                ExitCode::Compile => 65i32,
                ExitCode::Runtime => 70i32,
            },
    {
        match self {
            ExitCode::Usage => 64,
            ExitCode::Compile => 65,
            ExitCode::Runtime => 70,
        }
    }
}

/// An error of the command line: the exit status it asks for, and a
/// message.
#[derive(Debug, PartialEq, Eq)]
pub struct CommandError {
    pub code: ExitCode,
    pub message: String,
}

impl CommandError {
    /// An error with the given exit status and message.
    pub fn new(code: ExitCode, message: String) -> (error: Self)
        ensures
            error.code == code,
            error.message == message,
    {
        CommandError { code, message }
    }

    /// The message, as the error is shown to a person.
    pub fn to_string(&self) -> (text: String)
        ensures
            text@ == self.message@,
    {
        self.message.clone()
    }
}

/// A command of the Amarok command line.
#[derive(Debug, Clone, Copy, PartialEq, Eq, Structural)]
pub enum Command {
    Help,
    Version,
}

/// The command that the arguments spell, or the message of the usage
/// error. No argument at all asks for help; the first argument names the
/// command; the others are ignored.
pub open spec fn parse_arguments(arguments: Seq<Seq<char>>) -> Result<Command, Seq<char>> {
    if arguments.len() == 0 {
        Ok(Command::Help)
    } else if arguments[0] == "help"@ {
        Ok(Command::Help)
    } else if arguments[0] == "version"@ {
        Ok(Command::Version)
    } else {
        Err("Unknown command: "@ + arguments[0])
    }
}

/// The texts of a list of arguments.
pub open spec fn argument_texts(arguments: Seq<String>) -> Seq<Seq<char>> {
    Seq::new(arguments.len(), |i: int| arguments[i]@)
}

/// The help text.
pub open spec fn help_text() -> Seq<char> {
    "Amarok\n\nAvailable commands:\n  help        Display this help message\n  version     Display version information\n\n"@
}

/// The version text.
pub open spec fn version_text() -> Seq<char> {
    "Amarok version 0.1.0\n"@
}

/// Whether `text` spells `literal`.
fn spells(text: &String, literal: &str) -> (yes: bool)
    ensures
        yes == (text@ == literal@),
{
    *text == String::from_str(literal)
}

impl Command {
    /// The command that the arguments spell.
    pub fn parse(arguments: Vec<String>) -> (result: Result<Self, CommandError>)
        ensures
            match parse_arguments(argument_texts(arguments@)) {
                Ok(command) => result == Ok::<Command, CommandError>(command),
                Err(message) => result matches Err(error) && error.code == ExitCode::Usage
                    && error.message@ == message,
            },
    {
        if arguments.len() == 0 {
            return Ok(Command::Help);
        }
        let command_name = &arguments[0];
        if spells(command_name, "help") {
            Ok(Command::Help)
        } else if spells(command_name, "version") {
            Ok(Command::Version)
        } else {
            let mut message = String::from_str("Unknown command: ");
            message.append(command_name.as_str());
            Err(CommandError::new(ExitCode::Usage, message))
        }
    }

    /// The text that the command prints.
    pub fn run(self) -> (text: String)
        ensures
            text@ == match self {
                Command::Help => help_text(),
                Command::Version => version_text(),
            },
    {
        match self {
            Command::Help => String::from_str(
                "Amarok\n\nAvailable commands:\n  help        Display this help message\n  version     Display version information\n\n",
            ),
            Command::Version => String::from_str("Amarok version 0.1.0\n"),
        }
    }
}

} // verus!
