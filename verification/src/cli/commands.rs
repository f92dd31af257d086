use crate::cli::errors::CommandError;
use crate::driver::error::DriverError;
use vstd::prelude::*;
use vstd::string::StringExecFns;

verus! {

/// A command of the command line.
#[derive(Debug, PartialEq, Eq)]
pub enum Command {
    Help,
    Version,
    Compile { source_path: String },
}

/// The mathematical value of a [`Command`].
pub ghost enum CommandModel {
    Help,
    Version,
    Compile { source_path: Seq<char> },
}

impl View for Command {
    type V = CommandModel;

    open spec fn view(&self) -> CommandModel {
        match self {
            Command::Help => CommandModel::Help,
            Command::Version => CommandModel::Version,
            Command::Compile { source_path } => CommandModel::Compile { source_path: source_path@ },
        }
    }
}

/// What carrying out a command comes to: a text to print, or a file to
/// compile.
#[derive(Debug, PartialEq, Eq)]
pub enum CommandPlan {
    Print { text: String },
    Compile { source_path: String },
}

/// The message for `compile` without a path.
pub open spec fn missing_path_message() -> Seq<char> {
    "The compile command requires a source path."@
}

/// The message for a command that does not exist.
pub open spec fn unknown_command_message(name: Seq<char>) -> Seq<char> {
    "Unknown command: "@ + name
}

/// The command that the arguments spell, or the message of the error. No
/// argument at all asks for help; the first argument names the command;
/// `compile` takes the path of the source from the second; arguments
/// behind those are ignored.
pub open spec fn parse_arguments(arguments: Seq<Seq<char>>) -> Result<CommandModel, Seq<char>> {
    if arguments.len() == 0 {
        Ok(CommandModel::Help)
    } else if arguments[0] == "help"@ {
        Ok(CommandModel::Help)
    } else if arguments[0] == "version"@ {
        Ok(CommandModel::Version)
    } else if arguments[0] == "compile"@ {
        if arguments.len() < 2 {
            Err(missing_path_message())
        } else {
            Ok(CommandModel::Compile { source_path: arguments[1] })
        }
    } else {
        Err(unknown_command_message(arguments[0]))
    }
}

/// The texts of a list of arguments.
pub open spec fn argument_texts(arguments: Seq<String>) -> Seq<Seq<char>> {
    Seq::new(arguments.len(), |i: int| arguments[i]@)
}

/// The help text.
pub open spec fn help_text() -> Seq<char> {
    "wolf — command line interface\n\nAvailable commands:\n  help        Display this help message\n  version     Display version information\n  compile     Compile a source file\n\n"@
}

/// The version text.
pub open spec fn version_text() -> Seq<char> {
    "wolf version 0.1.0\n"@
}

/// Whether `text` spells `literal`.
fn spells(text: &String, literal: &str) -> (yes: bool)
    ensures
        yes == (text@ == literal@),
{
    *text == String::from_str(literal)
}

impl Command {
    /// The command that the arguments spell.
    pub fn parse(arguments: Vec<String>) -> (result: Result<Self, CommandError>)
        ensures
            match parse_arguments(argument_texts(arguments@)) {
                Ok(model) => result matches Ok(command) && command@ == model,
                Err(message) => result matches Err(error) && error.message@ == message,
            },
    {
        if arguments.len() == 0 {
            return Ok(Command::Help);
        }
        let command_name = &arguments[0];
        if spells(command_name, "help") {
            Ok(Command::Help)
        } else if spells(command_name, "version") {
            Ok(Command::Version)
        } else if spells(command_name, "compile") {
            if arguments.len() < 2 {
                return Err(
                    CommandError::new(
                        String::from_str("The compile command requires a source path."),
                    ),
                );
            }
            let source_path = arguments[1].clone();
            Ok(Command::Compile { source_path })
        } else {
            let mut message = String::from_str("Unknown command: ");
            message.append(command_name.as_str());
            Err(CommandError::new(message))
        }
    }

    /// What carrying out the command comes to: the help or the version text
    /// to print, or the file to compile.
    pub fn run(self) -> (plan: CommandPlan)
        ensures
            match self {
                Command::Help => plan matches CommandPlan::Print { text } && text@ == help_text(),
                Command::Version => plan matches CommandPlan::Print { text } && text@
                    == version_text(),
                Command::Compile { source_path } => plan == (CommandPlan::Compile { source_path }),
            },
    {
        match self {
            Command::Help => CommandPlan::Print {
                text: String::from_str(
                    "wolf — command line interface\n\nAvailable commands:\n  help        Display this help message\n  version     Display version information\n  compile     Compile a source file\n\n",
                ),
            },
            Command::Version => CommandPlan::Print { text: String::from_str("wolf version 0.1.0\n") },
            Command::Compile { source_path } => CommandPlan::Compile { source_path },
        }
    }
}

/// The line that reports a successful compilation.
pub fn report_success(executable_path: &str) -> (text: String)
    ensures
        text@ == "Executable written to "@ + executable_path@,
{
    let mut text = String::from_str("Executable written to ");
    text.append(executable_path);
    text
}

/// The error that reports a failed compilation.
pub fn report_failure(error: &DriverError) -> (failure: CommandError)
    ensures
        failure.message@ == "Compilation failed: "@ + error.message@,
{
    let mut message = String::from_str("Compilation failed: ");
    message.append(error.message.as_str());
    CommandError::new(message)
}

} // verus!
