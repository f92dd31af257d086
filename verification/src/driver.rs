//! The steps of one compilation, from the text of a source file to a linked
//! executable. Reading, writing and running the linker are left to the
//! caller: this module decides what is done next, and with what.

pub mod error;

use crate::codegen::compile_program_to_object;
use crate::codegen::emit::{is_outside_failure, may_generate, reports};
use crate::codegen::error::CodegenError;
use crate::codegen::lower::lower_program;
use crate::syntax::ast::Statement;
use crate::driver::error::{DriverError, DriverStage};
use crate::syntax::{parse_source, parse_text, syntax_error_text};
use std::path::PathBuf;
use vstd::prelude::*;
use vstd::string::StringExecFns;

verus! {

/// The standard library's `PathBuf`: a path of the file system.
#[verifier::external_type_specification]
#[verifier::external_body]
pub struct ExPathBuf(std::path::PathBuf);

/// The bytes that a path holds, in the encoding that the platform gives
/// to paths.
pub uninterp spec fn path_bytes(path: std::path::PathBuf) -> Seq<u8>;

/// The bytes of the path that `Path::with_extension` makes of the bytes of
/// a path and an extension: the path with the extension of its last
/// component replaced, or removed where the extension is empty.
pub uninterp spec fn extended(path: Seq<u8>, extension: Seq<char>) -> Seq<u8>;

/// Whether `text` holds a character that separates the components of a
/// path on some platform.
pub open spec fn holds_separator(text: Seq<char>) -> bool {
    exists|i: int| 0 <= i < text.len() && (text[i] == '/' || text[i] == '\\')
}

/// `Path::with_extension`: a new path, which is made of the bytes of the
/// given path and of the extension alone. What the new path is, is left to
/// the standard library and bears the name [`extended`]. The standard
/// library panics on an extension that holds a path separator: such an
/// extension is not admitted.
#[verifier::external_body]
fn with_extension(path: &PathBuf, extension: &str) -> (changed: PathBuf)
    requires
        !holds_separator(extension@),
    ensures
        path_bytes(changed) == extended(path_bytes(*path), extension@),
{
    path.with_extension(extension)
}

/// `PathBuf::clone` gives an equal path.
pub assume_specification[ <std::path::PathBuf as Clone>::clone ](path: &PathBuf) -> (copy: PathBuf)
    ensures
        copy == *path,
;

/// What the caller may ask of a compilation. Without an output path the
/// executable is named after the source file.
pub struct CompilationOptions {
    pub output_path: Option<PathBuf>,
}

impl CompilationOptions {
    /// The options that override nothing.
    pub fn simple() -> (options: Self)
        ensures
            options.output_path is None,
    {
        CompilationOptions { output_path: None }
    }
}

/// Where the object file of a source file goes: the path of the source
/// with its extension replaced by `o`.
pub fn object_path(source_path: &PathBuf) -> (path: PathBuf)
    ensures
        path_bytes(path) == extended(path_bytes(*source_path), "o"@),
{
    proof {
        reveal_strlit("o");
        assert(!holds_separator("o"@));
    }
    with_extension(source_path, "o")
}

/// Where the executable goes: the output path of the options where there
/// is one, else the path of the source with its extension removed.
pub fn executable_path(source_path: &PathBuf, options: &CompilationOptions) -> (path: PathBuf)
    ensures
        match options.output_path {
            Some(chosen) => path == chosen,
            None => path_bytes(path) == extended(path_bytes(*source_path), ""@),
        },
{
    proof {
        reveal_strlit("");
        assert(!holds_separator(""@));
    }
    match &options.output_path {
        Some(chosen) => chosen.clone(),
        None => with_extension(source_path, ""),
    }
}

/// The files that a compilation writes: the object file, and the
/// executable that the linker makes of it.
#[derive(Debug, PartialEq, Eq)]
pub struct CompilationPaths {
    pub object: PathBuf,
    pub executable: PathBuf,
}

/// Whether `paths` are the files of the compilation of `source_path` under
/// `options`: the object file where [`object_path`] puts it, the executable
/// where [`executable_path`] puts it.
pub open spec fn paths_of(
    source_path: PathBuf,
    options: CompilationOptions,
    paths: CompilationPaths,
) -> bool {
    &&& path_bytes(paths.object) == extended(path_bytes(source_path), "o"@)
    &&& match options.output_path {
        Some(chosen) => paths.executable == chosen,
        None => path_bytes(paths.executable) == extended(path_bytes(source_path), ""@),
    }
}

/// The files that the compilation of `source_path` under `options` writes.
pub fn plan(source_path: &PathBuf, options: &CompilationOptions) -> (paths: CompilationPaths)
    ensures
        paths_of(*source_path, *options, paths),
{
    CompilationPaths {
        object: object_path(source_path),
        executable: executable_path(source_path, options),
    }
}

/// One argument of a command: a text, or a path of the file system.
#[derive(Debug, PartialEq, Eq)]
pub enum Argument {
    Text { text: String },
    File { path: PathBuf },
}

/// A command to run: the name of the program, and its arguments in order.
#[derive(Debug, PartialEq, Eq)]
pub struct LinkerCall {
    pub program: String,
    pub arguments: Vec<Argument>,
}

/// Whether `call` is the call of the linker for an object file and an
/// executable: the C compiler `cc`, with the object file as its one input,
/// then `-o` and the executable as its output.
pub open spec fn is_linker_call(call: LinkerCall, object: PathBuf, executable: PathBuf) -> bool {
    &&& call.program@ == "cc"@
    &&& call.arguments@.len() == 3
    &&& call.arguments@[0] == (Argument::File { path: object })
    &&& (call.arguments@[1] matches Argument::Text { text } && text@ == "-o"@)
    &&& call.arguments@[2] == (Argument::File { path: executable })
}

/// The call of the linker that makes `executable` of `object`.
pub fn linker_call(object: &PathBuf, executable: &PathBuf) -> (call: LinkerCall)
    ensures
        is_linker_call(call, *object, *executable),
{
    let mut arguments: Vec<Argument> = Vec::new();
    arguments.push(Argument::File { path: object.clone() });
    arguments.push(Argument::Text { text: String::from_str("-o") });
    arguments.push(Argument::File { path: executable.clone() });
    LinkerCall { program: String::from_str("cc"), arguments }
}

/// How the linker ended: whether it reported success, and its exit status
/// as the platform words it.
#[derive(Debug, PartialEq, Eq)]
pub struct LinkerExit {
    pub success: bool,
    pub status: String,
}

/// What the driver waits for.
#[derive(Debug, Clone, Copy, PartialEq, Eq, Structural)]
pub enum DriverState {
    /// The text of the source file.
    Reading,
    /// The outcome of writing the object file.
    Writing,
    /// The end of the linker.
    Linking,
    /// Nothing: the compilation has succeeded or failed.
    Finished,
}

/// What the caller reports back: the outcome of the action that the driver
/// asked for last. An error is the text of the operating system's error.
#[derive(Debug, PartialEq, Eq)]
pub enum DriverEvent {
    SourceRead { source: Result<String, String> },
    ObjectWritten { written: Result<(), String> },
    LinkerFinished { linked: Result<LinkerExit, String> },
}

/// What the caller is to do next.
#[derive(Debug, PartialEq, Eq)]
pub enum DriverAction {
    /// Write these bytes to the file at this path, then report how it went.
    WriteObject { path: PathBuf, bytes: Vec<u8> },
    /// Run this command and wait for its end, then report how it ended.
    RunLinker { call: LinkerCall },
    /// Return this path, that of the executable: the compilation is done.
    Succeed { executable: PathBuf },
    /// Return this error: the compilation has failed.
    Fail { error: DriverError },
}

/// What a step decides: the new state, and what the caller is to do.
pub struct Decision {
    pub state: DriverState,
    pub action: DriverAction,
}

/// Whether `event` reports on what the driver waits for in `state`.
pub open spec fn awaited(state: DriverState, event: DriverEvent) -> bool {
    match state {
        DriverState::Reading => event is SourceRead,
        DriverState::Writing => event is ObjectWritten,
        DriverState::Linking => event is LinkerFinished,
        DriverState::Finished => false,
    }
}

/// The state in which a compilation starts: the caller reads the source
/// file and reports its text.
pub fn start() -> (state: DriverState)
    ensures
        state == DriverState::Reading,
{
    DriverState::Reading
}

/// Whether `decision` ends the compilation with an error of the given step
/// and message.
pub open spec fn fails_with(decision: Decision, stage: DriverStage, message: Seq<char>) -> bool {
    decision.state == DriverState::Finished && (decision.action matches DriverAction::Fail {
        error,
    } && error.stage == stage && error.message@ == message)
}

/// The message for a source that cannot be read.
pub open spec fn read_error_message(cause: Seq<char>) -> Seq<char> {
    "Failed to read file: "@ + cause
}

/// The message for a source that is no program.
pub open spec fn parse_failed_message(cause: Seq<char>) -> Seq<char> {
    "Parse failed: "@ + cause
}

/// The message for a program of which no object file could be generated.
pub open spec fn codegen_failed_message(cause: Seq<char>) -> Seq<char> {
    "Code generation failed: "@ + cause
}

/// The message for an object file that cannot be written.
pub open spec fn write_error_message(cause: Seq<char>) -> Seq<char> {
    "Failed to write object file: "@ + cause
}

/// The message for a linker that cannot be started.
pub open spec fn linker_not_run_message(cause: Seq<char>) -> Seq<char> {
    "Failed to execute linker: "@ + cause
}

/// The message for a linker that reports a failure.
pub open spec fn linker_failed_message(status: Seq<char>) -> Seq<char> {
    "Linker failed with status: "@ + status
}

/// Whether `decision` is what follows code generation that ended as
/// `generated`: its bytes are written to the object file, its error ends
/// the compilation.
pub open spec fn codegen_decides(
    paths: CompilationPaths,
    generated: Result<Vec<u8>, CodegenError>,
    decision: Decision,
) -> bool {
    match generated {
        Ok(bytes) => decision.state == DriverState::Writing && decision.action
            == (DriverAction::WriteObject { path: paths.object, bytes }),
        Err(error) => fails_with(
            decision,
            DriverStage::CodegenFailed,
            codegen_failed_message(error.message@),
        ),
    }
}

/// Whether `decision` is what follows code generation for `program`: there
/// is an answer that code generation may give for this program, and the
/// decision is what follows that answer.
pub open spec fn program_decides(
    paths: CompilationPaths,
    program: Seq<Statement>,
    decision: Decision,
) -> bool {
    exists|generated: Result<Vec<u8>, CodegenError>| #[trigger]
        may_generate(program, generated) && codegen_decides(paths, generated, decision)
}

/// Whether `decision` is what follows the reading of the source. A source
/// that cannot be read, or that is no program, ends the compilation. A
/// program goes to code generation, and the bytes or the error of code
/// generation decide.
pub open spec fn read_decides(
    paths: CompilationPaths,
    source: Result<String, String>,
    decision: Decision,
) -> bool {
    match source {
        Err(cause) => fails_with(decision, DriverStage::ReadError, read_error_message(cause@)),
        Ok(text) => match parse_text(text@) {
            Err(error) => fails_with(
                decision,
                DriverStage::ParseFailed,
                parse_failed_message(syntax_error_text(error)),
            ),
            Ok(program) => program_decides(paths, program, decision),
        },
    }
}

/// Whether `decision` is what follows the writing of the object file: the
/// linker, or the end.
pub open spec fn write_decides(
    paths: CompilationPaths,
    written: Result<(), String>,
    decision: Decision,
) -> bool {
    match written {
        Ok(_) => decision.state == DriverState::Linking && (decision.action matches DriverAction::RunLinker {
            call,
        } && is_linker_call(call, paths.object, paths.executable)),
        Err(cause) => fails_with(decision, DriverStage::WriteError, write_error_message(cause@)),
    }
}

/// Whether `decision` is what follows the linker: success where it ran and
/// reported success, a link failure where it could not be started or
/// reported anything else.
pub open spec fn link_decides(
    paths: CompilationPaths,
    linked: Result<LinkerExit, String>,
    decision: Decision,
) -> bool {
    match linked {
        Ok(exit) => if exit.success {
            decision.state == DriverState::Finished && decision.action == (DriverAction::Succeed {
                executable: paths.executable,
            })
        } else {
            fails_with(decision, DriverStage::LinkFailed, linker_failed_message(exit.status@))
        },
        Err(cause) => fails_with(decision, DriverStage::LinkFailed, linker_not_run_message(cause@)),
    }
}

/// The decision that ends the compilation with an error.
fn fail(stage: DriverStage, context: &str, cause: &str) -> (decision: Decision)
    ensures
        fails_with(decision, stage, context@ + cause@),
{
    let mut message = String::from_str(context);
    message.append(cause);
    Decision {
        state: DriverState::Finished,
        action: DriverAction::Fail { error: DriverError::new(stage, message) },
    }
}

/// What follows code generation: its bytes are written to the object file,
/// its error ends the compilation.
pub fn after_codegen(paths: &CompilationPaths, generated: Result<Vec<u8>, CodegenError>) -> (decision:
    Decision)
    ensures
        codegen_decides(*paths, generated, decision),
{
    match generated {
        Ok(bytes) => Decision {
            state: DriverState::Writing,
            action: DriverAction::WriteObject { path: paths.object.clone(), bytes },
        },
        Err(error) => fail(
            DriverStage::CodegenFailed,
            "Code generation failed: ",
            error.message.as_str(),
        ),
    }
}

/// What follows the reading of the source. A source that cannot be read,
/// or that is no program, ends the compilation; a program goes to code
/// generation, whose outcome decides as [`after_codegen`] says.
pub fn after_read(paths: &CompilationPaths, outcome: Result<String, String>) -> (decision: Decision)
    ensures
        read_decides(*paths, outcome, decision),
{
    let text = match outcome {
        Ok(text) => text,
        Err(cause) => {
            return fail(DriverStage::ReadError, "Failed to read file: ", cause.as_str());
        },
    };
    let program = match parse_source(text.as_str()) {
        Ok(program) => program,
        Err(error) => {
            return fail(DriverStage::ParseFailed, "Parse failed: ", error.to_string().as_str());
        },
    };
    let generated = compile_program_to_object(&program);
    let ghost answer = generated;
    let decision = after_codegen(paths, generated);
    assert(may_generate(program@, answer) && codegen_decides(*paths, answer, decision));
    decision
}

/// What follows the writing of the object file: the linker, or the end.
pub fn after_write(paths: &CompilationPaths, outcome: Result<(), String>) -> (decision: Decision)
    ensures
        write_decides(*paths, outcome, decision),
{
    match outcome {
        Ok(_) => Decision {
            state: DriverState::Linking,
            action: DriverAction::RunLinker { call: linker_call(&paths.object, &paths.executable) },
        },
        Err(cause) => fail(
            DriverStage::WriteError,
            "Failed to write object file: ",
            cause.as_str(),
        ),
    }
}

/// What follows the linker: success where it ran and reported success, a
/// link failure where it could not be started or reported anything else.
pub fn after_link(paths: &CompilationPaths, outcome: Result<LinkerExit, String>) -> (decision: Decision)
    ensures
        link_decides(*paths, outcome, decision),
{
    match outcome {
        Ok(exit) => {
            if exit.success {
                Decision {
                    state: DriverState::Finished,
                    action: DriverAction::Succeed { executable: paths.executable.clone() },
                }
            } else {
                fail(DriverStage::LinkFailed, "Linker failed with status: ", exit.status.as_str())
            }
        },
        Err(cause) => fail(DriverStage::LinkFailed, "Failed to execute linker: ", cause.as_str()),
    }
}

/// The step that an event reports on.
pub open spec fn stage_of(event: DriverEvent) -> DriverStage {
    match event {
        DriverEvent::SourceRead { .. } => DriverStage::ReadError,
        DriverEvent::ObjectWritten { .. } => DriverStage::WriteError,
        DriverEvent::LinkerFinished { .. } => DriverStage::LinkFailed,
    }
}

/// The message for a report on something that the driver did not ask for.
pub open spec fn unawaited_message() -> Seq<char> {
    "Unexpected report: "@ + "the driver did not ask for this"@
}

/// Whether `decision` is what follows `event` in `state`.
pub open spec fn decides(
    paths: CompilationPaths,
    state: DriverState,
    event: DriverEvent,
    decision: Decision,
) -> bool {
    if awaited(state, event) {
        match event {
            DriverEvent::SourceRead { source } => read_decides(paths, source, decision),
            DriverEvent::ObjectWritten { written } => write_decides(paths, written, decision),
            DriverEvent::LinkerFinished { linked } => link_decides(paths, linked, decision),
        }
    } else {
        fails_with(decision, stage_of(event), unawaited_message())
    }
}

/// One step of a compilation: from the state and the report on the last
/// action to the next state and the next action. Every failure ends the
/// compilation at once; nothing is tried again. A report on something that
/// the driver did not ask for ends the compilation too.
pub fn step(paths: &CompilationPaths, state: DriverState, event: DriverEvent) -> (decision: Decision)
    ensures
        decides(*paths, state, event, decision),
{
    match (state, event) {
        (DriverState::Reading, DriverEvent::SourceRead { source }) => after_read(paths, source),
        (DriverState::Writing, DriverEvent::ObjectWritten { written }) => after_write(
            paths,
            written,
        ),
        (DriverState::Linking, DriverEvent::LinkerFinished { linked }) => after_link(paths, linked),
        (_, DriverEvent::SourceRead { .. }) => fail(
            DriverStage::ReadError,
            "Unexpected report: ",
            "the driver did not ask for this",
        ),
        (_, DriverEvent::ObjectWritten { .. }) => fail(
            DriverStage::WriteError,
            "Unexpected report: ",
            "the driver did not ask for this",
        ),
        (_, DriverEvent::LinkerFinished { .. }) => fail(
            DriverStage::LinkFailed,
            "Unexpected report: ",
            "the driver did not ask for this",
        ),
    }
}

/// A program that reads a name before any declaration of it, or that has
/// no statement, never reaches the object file or the linker: the step
/// that follows the reading of its source ends the compilation at code
/// generation. The message is that of code generation: it names the
/// variable, or says that the program is empty, unless the machine or
/// Cranelift has failed first.
pub proof fn lemma_unlowerable_program_ends_at_codegen(
    paths: CompilationPaths,
    text: String,
    decision: Decision,
)
    requires
        read_decides(paths, Ok(text), decision),
        parse_text(text@) matches Ok(program) && lower_program(program) is Err,
    ensures
        decision.state == DriverState::Finished,
        decision.action matches DriverAction::Fail { error } && error.stage
            == DriverStage::CodegenFailed && exists|cause: CodegenError| #[trigger]
            codegen_failed_message(cause.message@) == error.message@ && (is_outside_failure(cause)
                || reports(cause, lower_program(parse_text(text@)->Ok_0)->Err_0)),
{
    let program = parse_text(text@)->Ok_0;
    let generated = choose|generated: Result<Vec<u8>, CodegenError>| #[trigger]
        may_generate(program, generated) && codegen_decides(paths, generated, decision);
    let cause = generated->Err_0;
    assert(codegen_failed_message(cause.message@) == decision.action->Fail_error.message@);
}

/// A link that fails ends the compilation with a link failure and asks
/// for nothing more: the object file stays as it was written, with the
/// bytes that code generation gave, and nothing is asked to make, change
/// or remove the executable.
pub proof fn lemma_failed_link_ends_the_compilation(
    paths: CompilationPaths,
    linked: Result<LinkerExit, String>,
    decision: Decision,
)
    requires
        decides(paths, DriverState::Linking, DriverEvent::LinkerFinished { linked }, decision),
        !(linked matches Ok(exit) && exit.success),
    ensures
        decision.state == DriverState::Finished,
        decision.action matches DriverAction::Fail { error } && error.stage
            == DriverStage::LinkFailed,
{
}

} // verus!
