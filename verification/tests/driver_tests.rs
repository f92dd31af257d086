use std::path::PathBuf;
use wolf::driver::error::{DriverError, DriverStage};
use wolf::driver::{
    after_codegen, after_link, after_read, after_write, executable_path, linker_call, object_path,
    plan, start, step, Argument, CompilationOptions, CompilationPaths, Decision, DriverAction,
    DriverEvent, DriverState, LinkerCall, LinkerExit,
};
use wolf::codegen::error::{CodegenError, CodegenReason};

fn paths() -> CompilationPaths {
    plan(&PathBuf::from("dir/prog.wolf"), &CompilationOptions::simple())
}

fn failure(decision: Decision) -> DriverError {
    assert_eq!(decision.state, DriverState::Finished);
    match decision.action {
        DriverAction::Fail { error } => error,
        other => panic!("expected a failure, got {:?}", other),
    }
}

#[test]
fn simple_options_override_nothing() {
    assert_eq!(CompilationOptions::simple().output_path, None);
}

#[test]
fn object_file_goes_beside_the_source() {
    assert_eq!(object_path(&PathBuf::from("dir/prog.wolf")), PathBuf::from("dir/prog.o"));
    assert_eq!(object_path(&PathBuf::from("prog")), PathBuf::from("prog.o"));
}

#[test]
fn executable_is_named_after_the_source() {
    let options = CompilationOptions::simple();
    assert_eq!(executable_path(&PathBuf::from("dir/prog.wolf"), &options), PathBuf::from("dir/prog"));
}

#[test]
fn output_path_overrides_the_name() {
    let options = CompilationOptions { output_path: Some(PathBuf::from("out/app")) };
    assert_eq!(executable_path(&PathBuf::from("dir/prog.wolf"), &options), PathBuf::from("out/app"));
}

#[test]
fn compilation_starts_by_reading() {
    assert_eq!(start(), DriverState::Reading);
}

#[test]
fn unreadable_source_is_a_read_error() {
    let error = failure(step(
        &paths(),
        DriverState::Reading,
        DriverEvent::SourceRead { source: Err("No such file or directory".to_string()) },
    ));
    assert_eq!(error.stage, DriverStage::ReadError);
    assert_eq!(error.message, "Failed to read file: No such file or directory");
    assert_eq!(error.to_string(), "Failed to read file: No such file or directory");
}

#[test]
fn malformed_source_fails_at_the_parse_stage() {
    let error = failure(step(
        &paths(),
        DriverState::Reading,
        DriverEvent::SourceRead { source: Ok("let x 5;".to_string()) },
    ));
    assert_eq!(error.stage, DriverStage::ParseFailed);
    assert_eq!(
        error.message,
        "Parse failed: Expected '=' after variable name at 1:7, found Number"
    );
}

#[test]
fn unknown_character_fails_at_the_parse_stage() {
    let error = failure(after_read(&paths(), Ok("1 + ?;".to_string())));
    assert_eq!(error.stage, DriverStage::ParseFailed);
    assert_eq!(error.message, "Parse failed: Unexpected character '?' at 1:5");
}

#[test]
fn undefined_variable_fails_at_the_codegen_stage() {
    let error = failure(after_read(&paths(), Ok("y;".to_string())));
    assert_eq!(error.stage, DriverStage::CodegenFailed);
    assert_eq!(error.message, "Code generation failed: Undefined variable: y");
}

#[test]
fn empty_program_fails_at_the_codegen_stage() {
    let error = failure(after_read(&paths(), Ok("  \n".to_string())));
    assert_eq!(error.stage, DriverStage::CodegenFailed);
    assert_eq!(error.message, "Code generation failed: Program had no statements");
}

#[test]
fn program_goes_on_to_the_object_file() {
    let decision = step(
        &paths(),
        DriverState::Reading,
        DriverEvent::SourceRead { source: Ok("let x = 2 + 3; x;".to_string()) },
    );
    assert_eq!(decision.state, DriverState::Writing);
    match decision.action {
        DriverAction::WriteObject { path, bytes } => {
            assert_eq!(path, PathBuf::from("dir/prog.o"));
            assert!(bytes.len() > 16);
        },
        other => panic!("expected an object file, got {:?}", other),
    }
}

#[test]
fn codegen_outcome_decides() {
    let decision = after_codegen(&paths(), Ok(vec![1, 2, 3]));
    assert_eq!(decision.state, DriverState::Writing);
    assert_eq!(
        decision.action,
        DriverAction::WriteObject { path: PathBuf::from("dir/prog.o"), bytes: vec![1, 2, 3] }
    );
    let error = failure(after_codegen(&paths(), Err(CodegenError::new(
        CodegenReason::Target,
        "Host not supported: unsupported architecture".to_string(),
    ))));
    assert_eq!(error.stage, DriverStage::CodegenFailed);
    assert_eq!(
        error.message,
        "Code generation failed: Host not supported: unsupported architecture"
    );
}

#[test]
fn written_object_goes_to_the_linker() {
    let decision = step(&paths(), DriverState::Writing, DriverEvent::ObjectWritten { written: Ok(()) });
    assert_eq!(decision.state, DriverState::Linking);
    assert_eq!(
        decision.action,
        DriverAction::RunLinker {
            call: LinkerCall {
                program: "cc".to_string(),
                arguments: vec![
                    Argument::File { path: PathBuf::from("dir/prog.o") },
                    Argument::Text { text: "-o".to_string() },
                    Argument::File { path: PathBuf::from("dir/prog") },
                ],
            },
        }
    );
}

#[test]
fn unwritable_object_is_a_write_error() {
    let error = failure(after_write(&paths(), Err("Permission denied".to_string())));
    assert_eq!(error.stage, DriverStage::WriteError);
    assert_eq!(error.message, "Failed to write object file: Permission denied");
}

#[test]
fn successful_link_ends_the_compilation() {
    let decision = step(
        &paths(),
        DriverState::Linking,
        DriverEvent::LinkerFinished {
            linked: Ok(LinkerExit { success: true, status: "exit status: 0".to_string() }),
        },
    );
    assert_eq!(decision.state, DriverState::Finished);
    assert_eq!(decision.action, DriverAction::Succeed { executable: PathBuf::from("dir/prog") });
}

#[test]
fn failing_linker_is_a_link_failure() {
    let error = failure(step(
        &paths(),
        DriverState::Linking,
        DriverEvent::LinkerFinished {
            linked: Ok(LinkerExit { success: false, status: "exit status: 1".to_string() }),
        },
    ));
    assert_eq!(error.stage, DriverStage::LinkFailed);
    assert_eq!(error.message, "Linker failed with status: exit status: 1");
}

#[test]
fn missing_linker_is_a_link_failure() {
    let error = failure(after_link(&paths(), Err("No such file or directory".to_string())));
    assert_eq!(error.stage, DriverStage::LinkFailed);
    assert_eq!(error.message, "Failed to execute linker: No such file or directory");
}

#[test]
fn driver_error_keeps_its_parts() {
    let error = DriverError::new(DriverStage::WriteError, "disk full".to_string());
    assert_eq!(error.stage, DriverStage::WriteError);
    assert_eq!(error.to_string(), "disk full");
}

#[test]
fn unawaited_report_ends_the_compilation() {
    let error = failure(step(&paths(), DriverState::Reading, DriverEvent::ObjectWritten { written: Ok(()) }));
    assert_eq!(error.stage, DriverStage::WriteError);
    assert_eq!(error.message, "Unexpected report: the driver did not ask for this");
    let late = failure(step(
        &paths(),
        DriverState::Finished,
        DriverEvent::LinkerFinished {
            linked: Ok(LinkerExit { success: true, status: "exit status: 0".to_string() }),
        },
    ));
    assert_eq!(late.stage, DriverStage::LinkFailed);
    let early = failure(step(
        &paths(),
        DriverState::Writing,
        DriverEvent::SourceRead { source: Ok("1;".to_string()) },
    ));
    assert_eq!(early.stage, DriverStage::ReadError);
}

#[test]
fn plan_names_both_files() {
    let simple = plan(&PathBuf::from("src/main.wolf"), &CompilationOptions::simple());
    assert_eq!(simple.object, PathBuf::from("src/main.o"));
    assert_eq!(simple.executable, PathBuf::from("src/main"));
    let chosen = plan(
        &PathBuf::from("src/main.wolf"),
        &CompilationOptions { output_path: Some(PathBuf::from("bin/app")) },
    );
    assert_eq!(chosen.object, PathBuf::from("src/main.o"));
    assert_eq!(chosen.executable, PathBuf::from("bin/app"));
}

#[test]
fn linker_takes_the_object_then_the_output() {
    let call = linker_call(&PathBuf::from("a.o"), &PathBuf::from("out/a"));
    assert_eq!(call.program, "cc");
    assert_eq!(
        call.arguments,
        vec![
            Argument::File { path: PathBuf::from("a.o") },
            Argument::Text { text: "-o".to_string() },
            Argument::File { path: PathBuf::from("out/a") },
        ]
    );
}

#[test]
fn output_path_reaches_the_linker() {
    let chosen = plan(
        &PathBuf::from("prog.wolf"),
        &CompilationOptions { output_path: Some(PathBuf::from("bin/app")) },
    );
    let decision = after_write(&chosen, Ok(()));
    assert_eq!(decision.state, DriverState::Linking);
    assert_eq!(
        decision.action,
        DriverAction::RunLinker { call: linker_call(&PathBuf::from("prog.o"), &PathBuf::from("bin/app")) }
    );
}

#[test]
fn undefined_variable_writes_nothing_and_links_nothing() {
    let decision = step(
        &paths(),
        DriverState::Reading,
        DriverEvent::SourceRead { source: Ok("y;".to_string()) },
    );
    assert_eq!(decision.state, DriverState::Finished);
    assert_eq!(
        decision.action,
        DriverAction::Fail {
            error: DriverError::new(
                DriverStage::CodegenFailed,
                "Code generation failed: Undefined variable: y".to_string(),
            ),
        }
    );
}

#[test]
fn failed_link_asks_for_nothing_more() {
    let decision = step(
        &paths(),
        DriverState::Linking,
        DriverEvent::LinkerFinished { linked: Err("cc: not found".to_string()) },
    );
    assert_eq!(decision.state, DriverState::Finished);
    let error = failure(decision);
    assert_eq!(error.stage, DriverStage::LinkFailed);
    let late = step(&paths(), DriverState::Finished, DriverEvent::ObjectWritten { written: Ok(()) });
    assert_eq!(late.state, DriverState::Finished);
    assert!(matches!(late.action, DriverAction::Fail { .. }));
}
