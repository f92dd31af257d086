use wolf::cli::commands::{report_failure, report_success, Command, CommandPlan};
use wolf::cli::errors::CommandError;
use wolf::driver::error::{DriverError, DriverStage};

fn arguments(words: &[&str]) -> Vec<String> {
    words.iter().map(|word| word.to_string()).collect()
}

#[test]
fn no_argument_asks_for_help() {
    assert_eq!(Command::parse(vec![]), Ok(Command::Help));
}

#[test]
fn parses_each_command() {
    assert_eq!(Command::parse(arguments(&["help"])), Ok(Command::Help));
    assert_eq!(Command::parse(arguments(&["version"])), Ok(Command::Version));
    assert_eq!(
        Command::parse(arguments(&["compile", "main.wolf"])),
        Ok(Command::Compile { source_path: "main.wolf".to_string() })
    );
    assert_eq!(
        Command::parse(arguments(&["compile", "a.wolf", "b.wolf"])),
        Ok(Command::Compile { source_path: "a.wolf".to_string() })
    );
}

#[test]
fn compile_needs_a_path() {
    assert_eq!(
        Command::parse(arguments(&["compile"])),
        Err(CommandError::new("The compile command requires a source path.".to_string()))
    );
}

#[test]
fn unknown_command_is_named() {
    let error = Command::parse(arguments(&["build", "x"])).unwrap_err();
    assert_eq!(error.message, "Unknown command: build");
    assert_eq!(error.to_string(), "Unknown command: build");
    assert_eq!(Command::parse(arguments(&["Help"])).unwrap_err().message, "Unknown command: Help");
}

#[test]
fn version_prints_the_version() {
    assert_eq!(
        Command::Version.run(),
        CommandPlan::Print { text: "wolf version 0.1.0\n".to_string() }
    );
}

#[test]
fn help_lists_the_commands() {
    match Command::Help.run() {
        CommandPlan::Print { text } => {
            let lines: Vec<&str> = text.lines().collect();
            assert_eq!(lines[0], "wolf — command line interface");
            assert_eq!(lines[2], "Available commands:");
            assert_eq!(lines[3], "  help        Display this help message");
            assert_eq!(lines[4], "  version     Display version information");
            assert_eq!(lines[5], "  compile     Compile a source file");
            assert!(text.ends_with("\n\n"));
        }
        other => panic!("expected a text, got {:?}", other),
    }
}

#[test]
fn compile_hands_the_path_on() {
    assert_eq!(
        Command::Compile { source_path: "main.wolf".to_string() }.run(),
        CommandPlan::Compile { source_path: "main.wolf".to_string() }
    );
}

#[test]
fn reports_the_outcome_in_one_line() {
    assert_eq!(report_success("dir/main"), "Executable written to dir/main");
    let error = DriverError::new(
        DriverStage::LinkFailed,
        "Linker failed with status: exit status: 1".to_string(),
    );
    assert_eq!(
        report_failure(&error).message,
        "Compilation failed: Linker failed with status: exit status: 1"
    );
}
