//! Errors of the command line and the exit codes that they lead to.

use vstd::prelude::*;

use crate::json::{json_error_text, json_error_words};

verus! {

/// Marks an error as caused by the local tool environment: a missing runtime
/// dependency, the daemon failing to start or stop, or Chromium failing to
/// launch after an install. Other failures of the command line, and those that
/// the daemon reports, are not of this kind.
#[derive(Debug)]
pub struct ToolEnvironmentError(pub String);

impl ToolEnvironmentError {
    /// The message of the error.
    pub fn to_string(&self) -> (message: String)
        ensures
            message@ == self.0@,
    {
        self.0.clone()
    }
}

/// What kind of failure of input or output an error is: something is not there,
/// or there is nothing left to read.
#[derive(Debug, Clone, Copy, PartialEq, Eq, Structural)]
pub enum IoErrorKind {
    NotFound,
    UnexpectedEof,
}

/// A failure of input or output.
#[derive(Debug)]
pub struct IoError {
    pub kind: IoErrorKind,
    pub message: String,
}

/// A failure of input or output.
pub struct IoModel {
    pub kind: IoErrorKind,
    pub message: Seq<char>,
}

impl View for IoError {
    type V = IoModel;

    open spec fn view(&self) -> IoModel {
        IoModel { kind: self.kind, message: self.message@ }
    }
}

impl IoError {
    /// The message of the error.
    pub fn to_string(&self) -> (message: String)
        ensures
            message@ == self@.message,
    {
        self.message.clone()
    }
}

/// Any error of the command line.
#[derive(Debug)]
pub enum CliError {
    ToolEnvironment(ToolEnvironmentError),
    Io(IoError),
    Json(serde_json::Error),
    Other(String),
}

/// What an error says.
pub enum ErrorModel {
    ToolEnvironment(Seq<char>),
    Io(IoModel),
    Json(Seq<char>),
    Other(Seq<char>),
}

impl View for CliError {
    type V = ErrorModel;

    open spec fn view(&self) -> ErrorModel {
        match self {
            CliError::ToolEnvironment(error) => ErrorModel::ToolEnvironment(error.0@),
            CliError::Io(error) => ErrorModel::Io(error@),
            CliError::Json(error) => ErrorModel::Json(json_error_words(*error)),
            CliError::Other(message) => ErrorModel::Other(message@),
        }
    }
}

impl CliError {
    /// The message of the error.
    pub fn to_string(&self) -> (message: String)
        ensures
            match self@ {
                ErrorModel::ToolEnvironment(text) => message@ == text,
                ErrorModel::Io(error) => message@ == error.message,
                ErrorModel::Json(words) => message@ == words,
                ErrorModel::Other(text) => message@ == text,
            },
    {
        match self {
            CliError::ToolEnvironment(error) => error.to_string(),
            CliError::Io(error) => error.to_string(),
            CliError::Json(error) => json_error_text(error),
            CliError::Other(message) => message.clone(),
        }
    }
}

/// The error that an outcome holds, by what it says.
pub open spec fn cli_outcome<T>(outcome: Result<T, CliError>) -> Result<T, ErrorModel> {
    match outcome {
        Ok(value) => Ok(value),
        Err(error) => Err(error@),
    }
}

/// The documented exit codes.
#[derive(Debug, Clone, Copy, PartialEq, Eq, Structural)]
pub enum ExitCode {
    Success,
    GenericError,
    Usage,
    ToolEnvironment,
    Upstream,
}

/// The number of an exit code.
pub open spec fn code_of(exit: ExitCode) -> i32 {
    match exit {
        ExitCode::Success => 0,
        ExitCode::GenericError => 1,
        ExitCode::Usage => 2,
        ExitCode::ToolEnvironment => 3,
        ExitCode::Upstream => 4,
    }
}

/// The name of an exit code.
pub open spec fn label_of(exit: ExitCode) -> Seq<char> {
    match exit {
        ExitCode::Success => "success"@,
        ExitCode::GenericError => "generic-error"@,
        ExitCode::Usage => "usage-error"@,
        ExitCode::ToolEnvironment => "tool-environment-error"@,
        ExitCode::Upstream => "upstream-failure"@,
    }
}

/// What an exit code means.
pub open spec fn description_of(exit: ExitCode) -> Seq<char> {
    match exit {
        ExitCode::Success => "The command completed successfully."@,
        ExitCode::GenericError => "An unclassified CLI-side error occurred (I/O, connection, or parsing failure). See the printed `Error:` line for detail."@,
        ExitCode::Usage => "Invalid arguments/flags (raised by clap), or a bare invocation with no piped script on an interactive stdin (help was printed instead of running a script)."@,
        ExitCode::ToolEnvironment => "A local environment problem: missing runtime dependency, `dev-browser install` not run yet, Chromium failed to launch, or the daemon could not start/stop."@,
        ExitCode::Upstream => "The daemon reported a failure from the script, browser, or CDP connection itself (not a CLI-side problem)."@,
    }
}

/// The exit codes in the order of their numbers.
pub open spec fn exit_codes() -> Seq<ExitCode> {
    seq![
        ExitCode::Success,
        ExitCode::GenericError,
        ExitCode::Usage,
        ExitCode::ToolEnvironment,
        ExitCode::Upstream,
    ]
}

/// An entry of the dictionary of exit codes.
pub open spec fn is_entry_of(entry: (i32, &str, &str), exit: ExitCode) -> bool {
    entry.0 == code_of(exit) && entry.1@ == label_of(exit) && entry.2@ == description_of(exit)
}

impl ExitCode {
    /// The number that the process exits with.
    pub fn code(self) -> (code: i32)
        ensures
            code == code_of(self),
    {
        match self {
            ExitCode::Success => 0,
            ExitCode::GenericError => 1,
            ExitCode::Usage => 2,
            ExitCode::ToolEnvironment => 3,
            ExitCode::Upstream => 4,
        }
    }

    /// The name of the exit code.
    pub fn label(self) -> (label: &'static str)
        ensures
            label@ == label_of(self),
    {
        match self {
            ExitCode::Success => "success",
            ExitCode::GenericError => "generic-error",
            ExitCode::Usage => "usage-error",
            ExitCode::ToolEnvironment => "tool-environment-error",
            ExitCode::Upstream => "upstream-failure",
        }
    }

    /// What the exit code means.
    pub fn description(self) -> (description: &'static str)
        ensures
            description@ == description_of(self),
    {
        match self {
            ExitCode::Success => "The command completed successfully.",
            ExitCode::GenericError => "An unclassified CLI-side error occurred (I/O, connection, or parsing failure). See the printed `Error:` line for detail.",
            ExitCode::Usage => "Invalid arguments/flags (raised by clap), or a bare invocation with no piped script on an interactive stdin (help was printed instead of running a script).",
            ExitCode::ToolEnvironment => "A local environment problem: missing runtime dependency, `dev-browser install` not run yet, Chromium failed to launch, or the daemon could not start/stop.",
            ExitCode::Upstream => "The daemon reported a failure from the script, browser, or CDP connection itself (not a CLI-side problem).",
        }
    }

    fn entry(self) -> (entry: (i32, &'static str, &'static str))
        ensures
            is_entry_of(entry, self),
    {
        (self.code(), self.label(), self.description())
    }

    /// Every exit code with its name and its meaning.
    pub fn dictionary() -> (entries: [(i32, &'static str, &'static str); 5])
        ensures
            forall|i: int| 0 <= i < 5 ==> is_entry_of(#[trigger] entries@[i], exit_codes()[i]),
    {
        [
            ExitCode::Success.entry(),
            ExitCode::GenericError.entry(),
            ExitCode::Usage.entry(),
            ExitCode::ToolEnvironment.entry(),
            ExitCode::Upstream.entry(),
        ]
    }
}

/// The exit code that an error leads to.
pub open spec fn error_code_of(error: ErrorModel) -> i32 {
    if error is ToolEnvironment {
        code_of(ExitCode::ToolEnvironment)
    } else {
        code_of(ExitCode::GenericError)
    }
}

/// Chooses the exit code for a top-level error: environment problems have one
/// of their own, everything else is a generic error.
pub fn classify_error_exit_code(error: &CliError) -> (code: i32)
    ensures
        code == error_code_of(error@),
{
    match error {
        CliError::ToolEnvironment(_) => ExitCode::ToolEnvironment.code(),
        CliError::Io(_) => ExitCode::GenericError.code(),
        CliError::Json(_) => ExitCode::GenericError.code(),
        CliError::Other(_) => ExitCode::GenericError.code(),
    }
}

/// The exit codes are the numbers from zero to four, each of one kind.
pub proof fn law_exit_codes_are_distinct(a: ExitCode, b: ExitCode)
    ensures
        0 <= code_of(a) <= 4,
        exit_codes()[code_of(a) as int] == a,
        code_of(a) == code_of(b) ==> a == b,
{
}

/// Only a problem of the local environment leads to the exit code of its own,
/// whatever the error says; every other error leads to the generic one, and no
/// error to success.
pub proof fn law_only_environment_errors_have_their_own_code(error: ErrorModel)
    ensures
        error_code_of(error) == 3 <==> error is ToolEnvironment,
        error_code_of(error) == 1 <==> !(error is ToolEnvironment),
{
}

/// The exit codes are numbered from success on: a generic error, a wrong usage, a
/// problem of the environment, and a failure that the daemon reports. Each has a
/// name that no other has.
pub proof fn law_exit_codes_are_named(a: ExitCode, b: ExitCode)
    ensures
        a is Success <==> code_of(a) == 0,
        a is GenericError <==> code_of(a) == 1,
        a is Usage <==> code_of(a) == 2,
        a is ToolEnvironment <==> code_of(a) == 3,
        a is Upstream <==> code_of(a) == 4,
        a is Success <==> label_of(a) == "success"@,
        a is GenericError <==> label_of(a) == "generic-error"@,
        a is Usage <==> label_of(a) == "usage-error"@,
        a is ToolEnvironment <==> label_of(a) == "tool-environment-error"@,
        a is Upstream <==> label_of(a) == "upstream-failure"@,
        label_of(a) == label_of(b) ==> a == b,
{
    reveal_strlit("success");
    reveal_strlit("generic-error");
    reveal_strlit("usage-error");
    reveal_strlit("tool-environment-error");
    reveal_strlit("upstream-failure");
    assert("success"@.len() == 7);
    assert("generic-error"@.len() == 13);
    assert("usage-error"@.len() == 11);
    assert("tool-environment-error"@.len() == 22);
    assert("upstream-failure"@.len() == 16);
}

/// An error is modelled by its kind and by what it says.
pub proof fn law_errors_are_modelled_by_what_they_say(
    tool: ToolEnvironmentError,
    io: IoError,
    json: serde_json::Error,
    other: String,
    outcome: Result<i32, CliError>,
)
    ensures
        io@.kind == io.kind && io@.message == io.message@,
        CliError::ToolEnvironment(tool)@ == ErrorModel::ToolEnvironment(tool.0@),
        CliError::Io(io)@ == ErrorModel::Io(io@),
        CliError::Json(json)@ == ErrorModel::Json(json_error_words(json)),
        CliError::Other(other)@ == ErrorModel::Other(other@),
        outcome matches Ok(code) ==> cli_outcome(outcome) == Ok::<i32, ErrorModel>(code),
        outcome matches Err(error) ==> cli_outcome(outcome) == Err::<i32, ErrorModel>(error@),
{
}

/// What the exit codes mean, in words.
pub proof fn law_what_the_exit_codes_mean()
    ensures
        description_of(ExitCode::Success) == "The command completed successfully."@,
        description_of(ExitCode::GenericError)
            == "An unclassified CLI-side error occurred (I/O, connection, or parsing failure). See the printed `Error:` line for detail."@,
        description_of(ExitCode::Usage)
            == "Invalid arguments/flags (raised by clap), or a bare invocation with no piped script on an interactive stdin (help was printed instead of running a script)."@,
        description_of(ExitCode::ToolEnvironment)
            == "A local environment problem: missing runtime dependency, `dev-browser install` not run yet, Chromium failed to launch, or the daemon could not start/stop."@,
        description_of(ExitCode::Upstream)
            == "The daemon reported a failure from the script, browser, or CDP connection itself (not a CLI-side problem)."@,
{
}

} // verus!
