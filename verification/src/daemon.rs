//! The daemon: its files, its process and the command that launches it.

use vstd::prelude::*;
use vstd::string::*;

use crate::connection::{located, optional_path};
use crate::exit_code::{
    CliError, ErrorModel, IoError, IoErrorKind, IoModel, ToolEnvironmentError,
};
use crate::paths::{
    ancestors, bytes_of, is_plain_name, joined_path, law_join_adds_one_part,
    law_joined_path_ends_with_name, law_the_extension_is_behind_the_last_dot,
    lemma_name_of_joined, lemma_parent_shorter, lemma_stem_end, lossy_text, may_be_home,
    name_start, parent_path,
    path_extension, path_name, path_parts, path_with_extension, same_bytes, stem_end, stripped,
    user_home, FilePath, PathPart, DOT,
};
use crate::text::{
    decimal, decimal_text, ends_with, law_decimal_reads_back, law_only_digits_are_read,
    law_written_numbers_are_read, parse_signed, same_text, signed_decimal, signed_number, texts,
    trim, trimmed,
};

verus! {

/// The log is moved aside at the next start of the daemon when it is longer.
pub const DAEMON_LOG_MAX_BYTES: u64 = 5_242_880;

/// The exit code by which Windows says that a process is still running.
pub const STILL_ACTIVE: u32 = 259;

// ---------------------------------------------------------------------------
// The daemon's files
// ---------------------------------------------------------------------------

/// The directory of everything that belongs to the daemon.
pub open spec fn base_dir_in(home: Seq<u8>) -> Seq<u8> {
    joined_path(home, bytes_of(".dev-browser"@))
}

/// The directory of the logs.
pub open spec fn logs_dir_in(home: Seq<u8>) -> Seq<u8> {
    joined_path(base_dir_in(home), bytes_of("logs"@))
}

/// The log of the daemon.
pub open spec fn log_path_in(home: Seq<u8>) -> Seq<u8> {
    joined_path(logs_dir_in(home), bytes_of("daemon.log"@))
}

/// What is said where there is no home directory for the logs.
pub open spec fn no_home_for_logs() -> IoModel {
    IoModel {
        kind: IoErrorKind::NotFound,
        message: "Could not determine the home directory for daemon logs."@,
    }
}

/// The directory of the logs, given the home directory.
pub open spec fn logs_dir_outcome(home: Option<Seq<u8>>) -> Result<Seq<u8>, IoModel> {
    match home {
        Some(home) => Ok(logs_dir_in(home)),
        None => Err(no_home_for_logs()),
    }
}

/// The log of the daemon, given the home directory.
pub open spec fn log_path_outcome(home: Option<Seq<u8>>) -> Result<Seq<u8>, IoModel> {
    match home {
        Some(home) => Ok(log_path_in(home)),
        None => Err(no_home_for_logs()),
    }
}

/// The log of the daemon as an error message names it.
pub open spec fn log_display(log_path: Result<Seq<u8>, IoModel>) -> Seq<char> {
    match log_path {
        Ok(path) => lossy_text(path),
        Err(_) => "~/.dev-browser/logs/daemon.log"@,
    }
}

/// The directory of the daemon, given the home directory.
pub open spec fn base_dir_outcome(home: Option<Seq<u8>>) -> Result<Seq<u8>, Seq<char>> {
    match home {
        Some(home) => Ok(base_dir_in(home)),
        None => Err("Could not determine the home directory for the embedded daemon runtime."@),
    }
}

/// The path that an outcome holds, or the message of its error.
pub open spec fn tool_outcome(outcome: Result<FilePath, ToolEnvironmentError>) -> Result<
    Seq<u8>,
    Seq<char>,
> {
    match outcome {
        Ok(path) => Ok(path@),
        Err(error) => Err(error.0@),
    }
}

/// The directory of the logs in the given home directory.
pub fn daemon_logs_dir_in(home: Option<FilePath>) -> (outcome: Result<FilePath, IoError>)
    ensures
        located(outcome) == logs_dir_outcome(optional_path(home)),
{
    match home {
        Some(home) => Ok(home.join(".dev-browser").join("logs")),
        None => Err(
            IoError {
                kind: IoErrorKind::NotFound,
                message: "Could not determine the home directory for daemon logs.".to_string(),
            },
        ),
    }
}

/// The directory of the logs in the user's home directory.
pub fn daemon_logs_dir() -> (outcome: Result<FilePath, IoError>)
    ensures
        exists|home: Option<Seq<u8>>|
            may_be_home(home) && located(outcome) == #[trigger] logs_dir_outcome(home),
{
    let home = user_home();
    let ghost found = optional_path(home);
    let outcome = daemon_logs_dir_in(home);
    proof {
        assert(located(outcome) == logs_dir_outcome(found));
    }
    outcome
}

/// The daemon's log in the given home directory.
pub fn daemon_log_path_in(home: Option<FilePath>) -> (outcome: Result<FilePath, IoError>)
    ensures
        located(outcome) == log_path_outcome(optional_path(home)),
{
    match daemon_logs_dir_in(home) {
        Ok(dir) => Ok(dir.join("daemon.log")),
        Err(error) => Err(error),
    }
}

/// The daemon's log in the user's home directory.
pub fn daemon_log_path() -> (outcome: Result<FilePath, IoError>)
    ensures
        exists|home: Option<Seq<u8>>|
            may_be_home(home) && located(outcome) == #[trigger] log_path_outcome(home),
{
    let home = user_home();
    let ghost found = optional_path(home);
    let outcome = daemon_log_path_in(home);
    proof {
        assert(located(outcome) == log_path_outcome(found));
    }
    outcome
}

/// The daemon's log in the given home directory, for an error message, which
/// always mentions `daemon.log` at its end.
pub fn daemon_log_path_display_in(home: Option<FilePath>) -> (text: String)
    ensures
        text@ == log_display(log_path_outcome(optional_path(home))),
        ends_with(text@, "daemon.log"@),
{
    let ghost place = optional_path(home);
    match daemon_log_path_in(home) {
        Ok(path) => {
            proof {
                reveal_strlit("daemon.log");
                law_joined_path_ends_with_name(logs_dir_in(place->0), "daemon.log"@);
            }
            path.display()
        },
        Err(_) => {
            let text = "~/.dev-browser/logs/daemon.log".to_string();
            proof {
                reveal_strlit("~/.dev-browser/logs/daemon.log");
                reveal_strlit("daemon.log");
                assert(text@.skip(20) =~= "daemon.log"@);
            }
            text
        },
    }
}

/// The daemon's log in the user's home directory, for an error message.
pub fn daemon_log_path_display() -> (text: String)
    ensures
        exists|home: Option<Seq<u8>>|
            may_be_home(home) && text@ == log_display(#[trigger] log_path_outcome(home)),
        ends_with(text@, "daemon.log"@),
{
    let home = user_home();
    let ghost found = optional_path(home);
    let text = daemon_log_path_display_in(home);
    proof {
        assert(text@ == log_display(log_path_outcome(found)));
    }
    text
}

/// The daemon's directory in the given home directory.
pub fn daemon_base_dir_in(home: Option<FilePath>) -> (outcome: Result<
    FilePath,
    ToolEnvironmentError,
>)
    ensures
        tool_outcome(outcome) == base_dir_outcome(optional_path(home)),
{
    match home {
        Some(home) => Ok(home.join(".dev-browser")),
        None => Err(
            ToolEnvironmentError(
                "Could not determine the home directory for the embedded daemon runtime.".to_string(),
            ),
        ),
    }
}

/// The daemon's directory in the user's home directory.
pub fn daemon_base_dir() -> (outcome: Result<FilePath, ToolEnvironmentError>)
    ensures
        exists|home: Option<Seq<u8>>|
            may_be_home(home) && tool_outcome(outcome) == #[trigger] base_dir_outcome(home),
{
    let home = user_home();
    let ghost found = optional_path(home);
    let outcome = daemon_base_dir_in(home);
    proof {
        assert(tool_outcome(outcome) == base_dir_outcome(found));
    }
    outcome
}

/// The directory of the files that scripts write.
pub fn tmp_dir(base_dir: &FilePath) -> (dir: FilePath)
    ensures
        dir@ == joined_path(base_dir@, bytes_of("tmp"@)),
{
    base_dir.join("tmp")
}

/// The directory of the named browsers' profiles.
pub fn browsers_dir(base_dir: &FilePath) -> (dir: FilePath)
    ensures
        dir@ == joined_path(base_dir@, bytes_of("browsers"@)),
{
    base_dir.join("browsers")
}

/// The file in which the daemon leaves its process id.
pub fn pid_path(base_dir: &FilePath) -> (path: FilePath)
    ensures
        path@ == joined_path(base_dir@, bytes_of("daemon.pid"@)),
{
    base_dir.join("daemon.pid")
}

/// The file that is locked while the daemon is being started.
pub fn spawn_lock_path(base_dir: &FilePath) -> (path: FilePath)
    ensures
        path@ == joined_path(base_dir@, bytes_of("daemon-spawn.lock"@)),
{
    base_dir.join("daemon-spawn.lock")
}

/// Where the daemon's log is written to, and where an earlier log is moved to
/// first, if it has to be.
#[derive(Debug)]
pub struct LogPlan {
    pub path: FilePath,
    pub rotate_to: Option<FilePath>,
}

/// Plans the log that a daemon writes to: `length` is the length of the log
/// that is there, if any. A log that is too long is moved aside, in the place
/// of the one that was moved aside before.
pub fn open_daemon_log_file(logs_dir: &FilePath, length: Option<u64>) -> (plan: LogPlan)
    ensures
        plan.path@ == joined_path(logs_dir@, bytes_of("daemon.log"@)),
        optional_path(plan.rotate_to) == match length {
            Some(length) => if length > DAEMON_LOG_MAX_BYTES {
                Some(joined_path(logs_dir@, bytes_of("daemon.log.1"@)))
            } else {
                None
            },
            None => None,
        },
        plan.rotate_to is Some <==> (length matches Some(bytes) && bytes > 5 * 1_024 * 1_024),
{
    let rotate_to = match length {
        Some(length) => if length > DAEMON_LOG_MAX_BYTES {
            Some(logs_dir.join("daemon.log.1"))
        } else {
            None
        },
        None => None,
    };
    LogPlan { path: logs_dir.join("daemon.log"), rotate_to }
}

proof fn lemma_plain_literals()
    ensures
        is_plain_name(bytes_of(".dev-browser"@)),
        is_plain_name(bytes_of("logs"@)),
        is_plain_name(bytes_of("daemon.log"@)),
{
    reveal_strlit(".dev-browser");
    reveal_strlit("logs");
    reveal_strlit("daemon.log");
    vstd::utf8::is_ascii_chars_encode_utf8(".dev-browser"@);
    vstd::utf8::is_ascii_chars_encode_utf8("logs"@);
    vstd::utf8::is_ascii_chars_encode_utf8("daemon.log"@);
}

/// Wherever the home directory is, the daemon's log is `daemon.log` in `logs`
/// in `.dev-browser` in it.
pub proof fn law_log_is_under_dev_browser(home: Seq<u8>)
    ensures
        path_parts(log_path_in(home)) == path_parts(home).push(
            PathPart::Normal(bytes_of(".dev-browser"@)),
        ).push(PathPart::Normal(bytes_of("logs"@))).push(
            PathPart::Normal(bytes_of("daemon.log"@)),
        ),
{
    lemma_plain_literals();
    law_join_adds_one_part(home, bytes_of(".dev-browser"@));
    law_join_adds_one_part(base_dir_in(home), bytes_of("logs"@));
    law_join_adds_one_part(logs_dir_in(home), bytes_of("daemon.log"@));
}

// ---------------------------------------------------------------------------
// The daemon's process
// ---------------------------------------------------------------------------

/// Whether the daemon runs, given what came of connecting to it.
pub fn is_daemon_running(connection: &Result<(), String>) -> (running: bool)
    ensures
        running == (connection is Ok),
{
    connection.is_ok()
}

/// The process id that a pid file states.
pub open spec fn stated_pid(pid_file: Option<Seq<char>>) -> Option<int> {
    match pid_file {
        Some(text) => signed_number(trimmed(text)),
        None => None,
    }
}

/// The process id that the daemon left behind, given what its pid file holds,
/// if it could be read.
pub fn current_daemon_pid(pid_file: Option<&str>) -> (pid: Option<i32>)
    ensures
        match pid {
            Some(pid) => pid_file is Some && stated_pid(Some(pid_file->0@)) == Some(pid as int),
            None => pid_file is Some ==> stated_pid(Some(pid_file->0@)) is None,
        },
{
    match pid_file {
        Some(text) => {
            let text = trim(text);
            parse_signed(&text)
        },
        None => None,
    }
}

/// What came of sending a process signal zero, which only asks whether it is
/// there: it could have been signalled, it is there but may not be signalled,
/// or there is no such process.
#[derive(Debug, Clone, Copy, PartialEq, Eq, Structural)]
pub enum SignalProbe {
    Delivered,
    NotPermitted,
    NoSuchProcess,
}

/// Whether a process runs. One that may not be signalled, since it belongs to
/// somebody else, runs as well.
pub open spec fn is_alive(pid: i32, probe: SignalProbe) -> bool {
    pid > 0 && !(probe is NoSuchProcess)
}

/// Whether a process runs, given what came of sending it signal zero.
pub fn pid_is_running(pid: i32, probe: SignalProbe) -> (running: bool)
    ensures
        running == is_alive(pid, probe),
{
    if pid <= 0 {
        return false;
    }
    match probe {
        SignalProbe::Delivered => true,
        SignalProbe::NotPermitted => true,
        SignalProbe::NoSuchProcess => false,
    }
}

/// What came of opening a process on Windows: its exit code, the refusal of
/// access to it, or nothing.
#[derive(Debug, Clone, Copy, PartialEq, Eq, Structural)]
pub enum OpenedProcess {
    ExitCode(u32),
    AccessDenied,
    NotFound,
}

/// What opening a process on Windows says of it: one that has not exited could
/// be signalled, and one to which access is refused is there.
pub open spec fn probe_of(opened: OpenedProcess) -> SignalProbe {
    match opened {
        OpenedProcess::ExitCode(code) => if code == STILL_ACTIVE {
            SignalProbe::Delivered
        } else {
            SignalProbe::NoSuchProcess
        },
        OpenedProcess::AccessDenied => SignalProbe::NotPermitted,
        OpenedProcess::NotFound => SignalProbe::NoSuchProcess,
    }
}

/// Judges what came of opening a process on Windows.
pub fn probe_by_exit_code(opened: OpenedProcess) -> (probe: SignalProbe)
    ensures
        probe == probe_of(opened),
{
    match opened {
        OpenedProcess::ExitCode(code) => if code == STILL_ACTIVE {
            SignalProbe::Delivered
        } else {
            SignalProbe::NoSuchProcess
        },
        OpenedProcess::AccessDenied => SignalProbe::NotPermitted,
        OpenedProcess::NotFound => SignalProbe::NoSuchProcess,
    }
}

/// Whether the daemon is gone: its socket is unreachable and its process no
/// longer runs. Either sign alone is not enough.
pub fn daemon_has_exited(pid: i32, daemon_unreachable: bool, probe: SignalProbe) -> (exited: bool)
    ensures
        exited == (daemon_unreachable && !is_alive(pid, probe)),
{
    daemon_unreachable && !pid_is_running(pid, probe)
}

// ---------------------------------------------------------------------------
// The command that launches the daemon
// ---------------------------------------------------------------------------

/// How the daemon is launched.
#[derive(Debug)]
pub struct DaemonCommand {
    pub program: String,
    pub args: Vec<String>,
    pub current_dir: FilePath,
    pub requires_runtime_install: bool,
}

/// How the daemon is launched.
pub struct CommandModel {
    pub program: Seq<char>,
    pub args: Seq<Seq<char>>,
    pub current_dir: Seq<u8>,
    pub requires_runtime_install: bool,
}

impl View for DaemonCommand {
    type V = CommandModel;

    open spec fn view(&self) -> CommandModel {
        CommandModel {
            program: self.program@,
            args: texts(self.args@),
            current_dir: self.current_dir@,
            requires_runtime_install: self.requires_runtime_install,
        }
    }
}

/// The command for the daemon that comes with the command line.
pub fn embedded_command(daemon_path: &FilePath, base_dir: &FilePath) -> (command: DaemonCommand)
    ensures
        command@ == (CommandModel {
            program: "node"@,
            args: seq![lossy_text(daemon_path@)],
            current_dir: base_dir@,
            requires_runtime_install: true,
        }),
{
    let mut args: Vec<String> = Vec::new();
    args.push(daemon_path.display());
    proof {
        assert(texts(args@) =~= seq![lossy_text(daemon_path@)]);
    }
    DaemonCommand {
        program: "node".to_string(),
        args,
        current_dir: base_dir.copy(),
        requires_runtime_install: true,
    }
}

/// Which daemon is launched: the one at an entrypoint that the user set, or
/// the one that comes with the command line.
#[derive(Debug)]
pub enum DaemonSource {
    Entry(FilePath),
    Embedded,
}

/// Decides which daemon is launched: `entry` is the entrypoint that the
/// environment sets, if any, and goes before the daemon that comes with the
/// command line.
pub fn find_daemon_command(entry: Option<FilePath>) -> (source: DaemonSource)
    ensures
        match entry {
            Some(path) => source == DaemonSource::Entry(path),
            None => source is Embedded,
        },
{
    match entry {
        Some(path) => DaemonSource::Entry(path),
        None => DaemonSource::Embedded,
    }
}

/// How an entrypoint is run.
#[derive(Debug, Clone, Copy, PartialEq, Eq, Structural)]
pub enum EntryKind {
    /// A JavaScript file: by `node`.
    Script,
    /// A TypeScript file: by `node`, through `tsx`.
    TypeScript,
    /// Anything else: as a program.
    Program,
}

/// How an entrypoint is run, by its extension.
pub open spec fn entry_kind_of(entry: Seq<u8>) -> EntryKind {
    match path_extension(entry) {
        Some(extension) => if extension == bytes_of("js"@) || extension == bytes_of("mjs"@)
            || extension == bytes_of("cjs"@) {
            EntryKind::Script
        } else if extension == bytes_of("ts"@) || extension == bytes_of("mts"@) || extension
            == bytes_of("cts"@) {
            EntryKind::TypeScript
        } else {
            EntryKind::Program
        },
        None => EntryKind::Program,
    }
}

/// How an entrypoint is run.
pub fn entry_kind(entry: &FilePath) -> (kind: EntryKind)
    ensures
        kind == entry_kind_of(entry@),
{
    match entry.extension() {
        Some(extension) => {
            if same_bytes(&extension, "js".as_bytes()) || same_bytes(&extension, "mjs".as_bytes())
                || same_bytes(&extension, "cjs".as_bytes()) {
                EntryKind::Script
            } else if same_bytes(&extension, "ts".as_bytes()) || same_bytes(
                &extension,
                "mts".as_bytes(),
            ) || same_bytes(&extension, "cts".as_bytes()) {
                EntryKind::TypeScript
            } else {
                EntryKind::Program
            }
        },
        None => EntryKind::Program,
    }
}

/// Where `tsx` is installed for a project in `dir`.
pub open spec fn tsx_cli_in(dir: Seq<u8>) -> Seq<u8> {
    joined_path(
        joined_path(
            joined_path(joined_path(dir, bytes_of("node_modules"@)), bytes_of("tsx"@)),
            bytes_of("dist"@),
        ),
        bytes_of("cli.mjs"@),
    )
}

/// The places where `tsx` is looked for, in order.
pub open spec fn tsx_candidates(entry: Seq<u8>) -> Seq<Seq<u8>> {
    Seq::new(ancestors(entry).len(), |i: int| tsx_cli_in(ancestors(entry)[i]))
}

/// Whether `is_file` can answer the question about `path` with `answer`.
pub open spec fn answers<F: Fn(&FilePath) -> bool>(
    is_file: F,
    path: Seq<u8>,
    answer: bool,
) -> bool {
    exists|asked: FilePath|
        asked@ == path && #[trigger] call_ensures(is_file, (&asked,), answer)
}

/// Whether `is_file` refused the first `index` places and accepted the one at
/// `index`, which is `path`.
pub open spec fn first_found<F: Fn(&FilePath) -> bool>(
    is_file: F,
    places: Seq<Seq<u8>>,
    index: int,
    path: Seq<u8>,
) -> bool {
    &&& 0 <= index < places.len()
    &&& path == places[index]
    &&& answers(is_file, path, true)
    &&& forall|j: int| 0 <= j < index ==> answers(is_file, #[trigger] places[j], false)
}

/// Whether `path` is the first of the places that `is_file` accepted.
pub open spec fn finds<F: Fn(&FilePath) -> bool>(
    is_file: F,
    places: Seq<Seq<u8>>,
    path: Seq<u8>,
) -> bool {
    exists|index: int| #[trigger] first_found(is_file, places, index, path)
}

/// Looks for `tsx` in the entrypoint's directory and the ones above it.
pub fn find_tsx_cli<F: Fn(&FilePath) -> bool>(entry: &FilePath, is_file: F) -> (outcome: Result<
    FilePath,
    ToolEnvironmentError,
>)
    requires
        forall|asked: FilePath| call_requires(is_file, (&asked,)),
    ensures
        outcome matches Ok(path) ==> finds(is_file, tsx_candidates(entry@), path@),
        outcome matches Err(error) ==> {
            &&& error.0@
                == "Could not locate the tsx runtime required to launch the TypeScript daemon."@
            &&& forall|j: int|
                0 <= j < tsx_candidates(entry@).len() ==> answers(
                    is_file,
                    #[trigger] tsx_candidates(entry@)[j],
                    false,
                )
        },
{
    let ghost places = tsx_candidates(entry@);
    let ghost all = ancestors(entry@);
    let ghost mut i: int = 0;
    let mut candidate = entry.copy();
    proof {
        assert(all.skip(0) =~= all);
    }
    loop
        invariant
            all == ancestors(entry@),
            places == tsx_candidates(entry@),
            0 <= i < all.len(),
            all.skip(i) == ancestors(candidate@),
            forall|asked: FilePath| call_requires(is_file, (&asked,)),
            forall|j: int| 0 <= j < i ==> answers(is_file, #[trigger] places[j], false),
        decreases candidate@.len(),
    {
        let tsx_cli = candidate.join("node_modules").join("tsx").join("dist").join("cli.mjs");
        proof {
            assert(ancestors(candidate@)[0] == candidate@);
            assert(all.skip(i)[0] == all[i]);
            assert(places[i] == tsx_cli@);
        }
        if is_file(&tsx_cli) {
            proof {
                assert(answers(is_file, tsx_cli@, true));
                assert(first_found(is_file, tsx_candidates(entry@), i, tsx_cli@));
                assert(finds(is_file, tsx_candidates(entry@), tsx_cli@));
            }
            return Ok(tsx_cli);
        }
        proof {
            assert(answers(is_file, places[i], false));
            lemma_parent_shorter(candidate@);
        }
        match candidate.parent() {
            Some(parent) => {
                proof {
                    assert(ancestors(candidate@).len() == 1 + ancestors(parent@).len());
                    assert(ancestors(candidate@).skip(1) =~= ancestors(parent@));
                    assert(all.skip(i).skip(1) =~= all.skip(i + 1));
                    assert(ancestors(parent@).len() > 0);
                    i = i + 1;
                }
                candidate = parent;
            },
            None => {
                proof {
                    assert(all.skip(i).len() == 1);
                }
                return Err(
                    ToolEnvironmentError(
                        "Could not locate the tsx runtime required to launch the TypeScript daemon.".to_string(),
                    ),
                );
            },
        }
    }
}

/// The command for an entrypoint, if it can be had, given the directory that
/// the entrypoint stands in and where `tsx` is.
pub open spec fn entry_command(
    entry: Seq<u8>,
    current_dir: Seq<u8>,
    tsx_cli: Seq<u8>,
) -> CommandModel {
    match entry_kind_of(entry) {
        EntryKind::Script => CommandModel {
            program: "node"@,
            args: seq![lossy_text(entry)],
            current_dir,
            requires_runtime_install: false,
        },
        EntryKind::TypeScript => CommandModel {
            program: "node"@,
            args: seq![lossy_text(tsx_cli), lossy_text(entry)],
            current_dir,
            requires_runtime_install: false,
        },
        EntryKind::Program => CommandModel {
            program: lossy_text(entry),
            args: Seq::empty(),
            current_dir,
            requires_runtime_install: false,
        },
    }
}

/// The command for an entrypoint that was set by the user, given by its
/// canonical path.
pub fn command_from_entry<F: Fn(&FilePath) -> bool>(entry: &FilePath, is_file: F) -> (outcome:
    Result<DaemonCommand, CliError>)
    requires
        forall|asked: FilePath| call_requires(is_file, (&asked,)),
    ensures
        match parent_path(entry@) {
            None => outcome is Err && outcome->Err_0@ == ErrorModel::Other(
                "Daemon entrypoint has no parent directory"@,
            ),
            Some(current_dir) => if entry_kind_of(entry@) is TypeScript {
                match outcome {
                    Ok(command) => exists|tsx_cli: Seq<u8>|
                        #[trigger] finds(is_file, tsx_candidates(entry@), tsx_cli) && command@
                            == entry_command(entry@, current_dir, tsx_cli),
                    Err(error) => {
                        &&& error@ == ErrorModel::ToolEnvironment(
                            "Could not locate the tsx runtime required to launch the TypeScript daemon."@,
                        )
                        &&& forall|j: int|
                            0 <= j < tsx_candidates(entry@).len() ==> answers(
                                is_file,
                                #[trigger] tsx_candidates(entry@)[j],
                                false,
                            )
                    },
                }
            } else {
                outcome is Ok && outcome->Ok_0@ == entry_command(
                    entry@,
                    current_dir,
                    Seq::empty(),
                )
            },
        },
{
    let current_dir = match entry.parent() {
        Some(dir) => dir,
        None => {
            return Err(CliError::Other("Daemon entrypoint has no parent directory".to_string()));
        },
    };
    let mut args: Vec<String> = Vec::new();
    match entry_kind(entry) {
        EntryKind::Script => {
            args.push(entry.display());
            proof {
                assert(texts(args@) =~= seq![lossy_text(entry@)]);
            }
            Ok(
                DaemonCommand {
                    program: "node".to_string(),
                    args,
                    current_dir,
                    requires_runtime_install: false,
                },
            )
        },
        EntryKind::TypeScript => {
            let tsx_cli = match find_tsx_cli(entry, is_file) {
                Ok(path) => path,
                Err(error) => {
                    return Err(CliError::ToolEnvironment(error));
                },
            };
            args.push(tsx_cli.display());
            args.push(entry.display());
            proof {
                assert(texts(args@) =~= seq![lossy_text(tsx_cli@), lossy_text(entry@)]);
            }
            Ok(
                DaemonCommand {
                    program: "node".to_string(),
                    args,
                    current_dir,
                    requires_runtime_install: false,
                },
            )
        },
        EntryKind::Program => {
            proof {
                assert(texts(args@) =~= Seq::<Seq<char>>::empty());
            }
            Ok(
                DaemonCommand {
                    program: entry.display(),
                    args,
                    current_dir,
                    requires_runtime_install: false,
                },
            )
        },
    }
}

// ---------------------------------------------------------------------------
// The files that the daemon is run from
// ---------------------------------------------------------------------------

/// A file that comes with the command line.
#[derive(Debug, Clone, Copy, PartialEq, Eq, Structural)]
pub enum EmbeddedFile {
    Daemon,
    SandboxClient,
    PackageManifest,
}

/// The name of a file that comes with the command line.
pub open spec fn embedded_name(file: EmbeddedFile) -> Seq<char> {
    match file {
        EmbeddedFile::Daemon => "daemon.mjs"@,
        EmbeddedFile::SandboxClient => "sandbox-client.js"@,
        EmbeddedFile::PackageManifest => "package.json"@,
    }
}

/// The files that come with the command line, in the order in which they are
/// put in place.
pub open spec fn embedded_files() -> Seq<EmbeddedFile> {
    seq![EmbeddedFile::Daemon, EmbeddedFile::SandboxClient, EmbeddedFile::PackageManifest]
}

/// Where a file that comes with the command line is put.
pub fn embedded_path(base_dir: &FilePath, file: EmbeddedFile) -> (path: FilePath)
    ensures
        path@ == joined_path(base_dir@, bytes_of(embedded_name(file))),
{
    match file {
        EmbeddedFile::Daemon => base_dir.join("daemon.mjs"),
        EmbeddedFile::SandboxClient => base_dir.join("sandbox-client.js"),
        EmbeddedFile::PackageManifest => base_dir.join("package.json"),
    }
}

/// The files to put in place, each with its path, the daemon's first.
pub fn ensure_daemon_extracted(base_dir: &FilePath) -> (files: Vec<(EmbeddedFile, FilePath)>)
    ensures
        files@.len() == embedded_files().len(),
        forall|i: int|
            0 <= i < files@.len() ==> (#[trigger] files@[i]).0 == embedded_files()[i]
                && files@[i].1@ == joined_path(
                base_dir@,
                bytes_of(embedded_name(embedded_files()[i])),
            ),
{
    let mut files: Vec<(EmbeddedFile, FilePath)> = Vec::new();
    files.push((EmbeddedFile::Daemon, embedded_path(base_dir, EmbeddedFile::Daemon)));
    files.push((EmbeddedFile::SandboxClient, embedded_path(base_dir, EmbeddedFile::SandboxClient)));
    files.push(
        (EmbeddedFile::PackageManifest, embedded_path(base_dir, EmbeddedFile::PackageManifest)),
    );
    files
}

/// What is in the place of a file that is to be put there: a text, nothing, or
/// something that cannot be read, for the given reason.
#[derive(Debug)]
pub enum ExistingFile {
    Contents(String),
    Missing,
    Unreadable(String),
}

/// The file that is written first and then renamed into the place of `path`.
pub open spec fn temporary_path(path: Seq<u8>, pid: nat) -> Seq<u8> {
    path_with_extension(path, bytes_of("tmp."@ + decimal(pid)))
}

/// The file to write before `path` is replaced by it, if it has to be.
pub open spec fn sync_outcome(
    path: Seq<u8>,
    contents: Seq<char>,
    existing: ExistingFile,
    pid: nat,
) -> Result<Option<Seq<u8>>, Seq<char>> {
    match existing {
        ExistingFile::Contents(text) => if text@ == contents {
            Ok(None)
        } else {
            Ok(Some(temporary_path(path, pid)))
        },
        ExistingFile::Missing => Ok(Some(temporary_path(path, pid))),
        ExistingFile::Unreadable(error) => Err(error@),
    }
}

/// Decides how a file comes to hold `contents`: not at all where it holds them
/// already, else by way of a file of this process that is written first and
/// then renamed into its place, so that nobody ever reads half of it.
pub fn sync_text_file(path: &FilePath, contents: &str, existing: &ExistingFile, pid: u32) -> (
    outcome: Result<Option<FilePath>, String>)
    ensures
        match outcome {
            Ok(temporary) => sync_outcome(path@, contents@, *existing, pid as nat) == Ok::<
                Option<Seq<u8>>,
                Seq<char>,
            >(optional_path(temporary)),
            Err(error) => sync_outcome(path@, contents@, *existing, pid as nat) == Err::<
                Option<Seq<u8>>,
                Seq<char>,
            >(error@),
        },
{
    match existing {
        ExistingFile::Contents(text) => {
            if same_text(text, contents) {
                return Ok(None);
            }
        },
        ExistingFile::Missing => {},
        ExistingFile::Unreadable(error) => {
            return Err(error.clone());
        },
    }
    let mut extension = "tmp.".to_string();
    extension.append(&decimal_text(pid as u128));
    proof {
        reveal_strlit("tmp.");
    }
    Ok(Some(path.with_extension(&extension)))
}

/// The file that is written first stands beside the one that it replaces.
pub proof fn law_temporary_file_is_beside(dir: Seq<u8>, name: Seq<u8>, pid: nat)
    requires
        is_plain_name(name),
    ensures
        temporary_path(joined_path(dir, name), pid) == joined_path(
            dir,
            name.take(stem_end(name) as int).push(DOT) + bytes_of("tmp."@ + decimal(pid)),
        ),
{
    let path = joined_path(dir, name);
    let extension = bytes_of("tmp."@ + decimal(pid));
    lemma_name_of_joined(dir, name);
    let stem = name.take(stem_end(name) as int).push(DOT);
    let start = (path.len() - name.len()) as int;
    lemma_stem_end(name, name.len());
    assert(stem[0] == name[0]);
    assert((stem + extension)[0] == stem[0]);
    assert(path.take(start) + stem + extension =~= joined_path(dir, stem + extension));
}

/// Two processes never write the same file first, so that neither renames
/// what the other is still writing.
pub proof fn law_temporary_file_is_per_process(path: Seq<u8>, a: nat, b: nat)
    requires
        path_name(path) is Some,
        a != b,
    ensures
        temporary_path(path, a) != temporary_path(path, b),
{
    law_decimal_reads_back(a);
    law_decimal_reads_back(b);
    let one = "tmp."@ + decimal(a);
    let other = "tmp."@ + decimal(b);
    if temporary_path(path, a) == temporary_path(path, b) {
        let whole = stripped(path);
        let name = path_name(path)->0;
        let stem = (whole.take(name_start(whole) as int) + name.take(stem_end(name) as int)).push(
            DOT,
        );
        assert(bytes_of(one) =~= temporary_path(path, a).skip(stem.len() as int));
        assert(bytes_of(other) =~= temporary_path(path, b).skip(stem.len() as int));
        vstd::utf8::encode_utf8_decode_utf8(one);
        vstd::utf8::encode_utf8_decode_utf8(other);
        assert(decimal(a) =~= one.skip("tmp."@.len() as int));
        assert(decimal(b) =~= other.skip("tmp."@.len() as int));
    }
}

/// Where the manifest of an installed package is.
pub open spec fn manifest_of(base_dir: Seq<u8>, package_name: Seq<char>) -> Seq<u8> {
    joined_path(
        joined_path(joined_path(base_dir, bytes_of("node_modules"@)), bytes_of(package_name)),
        bytes_of("package.json"@),
    )
}

/// Whether a package is installed: its manifest is there.
pub fn dependency_installed<F: Fn(&FilePath) -> bool>(
    base_dir: &FilePath,
    package_name: &str,
    is_file: F,
) -> (installed: bool)
    requires
        forall|asked: FilePath| call_requires(is_file, (&asked,)),
    ensures
        answers(is_file, manifest_of(base_dir@, package_name@), installed),
{
    let manifest = base_dir.join("node_modules").join(package_name).join("package.json");
    is_file(&manifest)
}

/// Whether the packages that the daemon needs are installed.
pub fn embedded_runtime_installed<F: Fn(&FilePath) -> bool>(
    base_dir: &FilePath,
    is_file: F,
) -> (installed: bool)
    requires
        forall|asked: FilePath| call_requires(is_file, (&asked,)),
    ensures
        installed ==> answers(is_file, manifest_of(base_dir@, "playwright"@), true) && answers(
            is_file,
            manifest_of(base_dir@, "quickjs-emscripten"@),
            true,
        ),
        !installed ==> answers(is_file, manifest_of(base_dir@, "playwright"@), false) || answers(
            is_file,
            manifest_of(base_dir@, "quickjs-emscripten"@),
            false,
        ),
{
    dependency_installed(base_dir, "playwright", &is_file) && dependency_installed(
        base_dir,
        "quickjs-emscripten",
        &is_file,
    )
}

// ---------------------------------------------------------------------------
// Laws
// ---------------------------------------------------------------------------

/// Everything that belongs to the daemon is under `.dev-browser` in the home
/// directory; without a home directory there is no place for it, and that is
/// said of the logs as of something that is not there.
pub proof fn law_the_daemon_lives_under_dev_browser(home: Seq<u8>)
    ensures
        base_dir_outcome(Some(home)) is Ok,
        path_parts(base_dir_outcome(Some(home))->Ok_0) == path_parts(home).push(
            PathPart::Normal(bytes_of(".dev-browser"@)),
        ),
        logs_dir_outcome(Some(home)) is Ok,
        path_parts(logs_dir_outcome(Some(home))->Ok_0) == path_parts(home).push(
            PathPart::Normal(bytes_of(".dev-browser"@)),
        ).push(PathPart::Normal(bytes_of("logs"@))),
        log_path_outcome(Some(home)) is Ok,
        path_parts(log_path_outcome(Some(home))->Ok_0) == path_parts(home).push(
            PathPart::Normal(bytes_of(".dev-browser"@)),
        ).push(PathPart::Normal(bytes_of("logs"@))).push(
            PathPart::Normal(bytes_of("daemon.log"@)),
        ),
        base_dir_outcome(None) is Err,
        logs_dir_outcome(None) is Err && logs_dir_outcome(None)->Err_0.kind is NotFound,
        log_path_outcome(None) is Err && log_path_outcome(None)->Err_0.kind is NotFound,
        log_path_outcome(None)->Err_0.message
            == "Could not determine the home directory for daemon logs."@,
        logs_dir_outcome(None)->Err_0.message
            == "Could not determine the home directory for daemon logs."@,
        base_dir_outcome(None)->Err_0
            == "Could not determine the home directory for the embedded daemon runtime."@,
        log_display(log_path_outcome(None)) == "~/.dev-browser/logs/daemon.log"@,
        log_display(log_path_outcome(Some(home))) == lossy_text(
            log_path_outcome(Some(home))->Ok_0,
        ),
{
    lemma_plain_literals();
    law_log_is_under_dev_browser(home);
    law_join_adds_one_part(home, bytes_of(".dev-browser"@));
    law_join_adds_one_part(base_dir_in(home), bytes_of("logs"@));
}

/// The process that a pid file states is the number in it, whatever white space is
/// around that; a file that holds anything else states none.
pub proof fn law_a_pid_file_states_a_number(text: Seq<char>, pid: i32)
    ensures
        trimmed(text) == signed_decimal(pid as int) ==> stated_pid(Some(text)) == Some(pid as int),
        stated_pid(Some(text)) is Some ==> trimmed(text).len() > 0,
        stated_pid(Some(text)) matches Some(n) ==> -0x8000_0000 <= n <= 0x7fff_ffff,
        stated_pid(None) is None,
{
    let n = pid as int;
    if n < 0 {
        law_written_numbers_are_read((-n) as nat, 0);
    } else {
        law_written_numbers_are_read(n as nat, 0);
    }
    law_only_digits_are_read(trimmed(text), 0);
}

/// A process runs exactly if its number is one of a process and there is such a
/// process: one that may not be signalled runs as well. On Windows a process that
/// has an exit code is gone, unless the code says that it is still active.
pub proof fn law_a_process_runs_unless_it_is_gone(pid: i32, probe: SignalProbe, code: u32)
    ensures
        pid <= 0 ==> !is_alive(pid, probe),
        pid > 0 ==> is_alive(pid, SignalProbe::Delivered),
        pid > 0 ==> is_alive(pid, SignalProbe::NotPermitted),
        !is_alive(pid, SignalProbe::NoSuchProcess),
        pid > 0 ==> (is_alive(pid, probe_of(OpenedProcess::ExitCode(code))) <==> code == 259),
        pid > 0 ==> is_alive(pid, probe_of(OpenedProcess::AccessDenied)),
        !is_alive(pid, probe_of(OpenedProcess::NotFound)),
{
}

/// An entrypoint is run by `node` if it is a JavaScript file, by `node` through
/// `tsx` if it is a TypeScript file, and else as a program; the extension of its
/// name decides.
pub proof fn law_the_extension_decides_how_to_run(
    dir: Seq<u8>,
    stem: Seq<u8>,
    extension: Seq<u8>,
    bare: Seq<u8>,
)
    requires
        stem.len() > 0,
        is_plain_name(stem.push(DOT) + extension),
        forall|i: int| 0 <= i < extension.len() ==> extension[i] != DOT,
        is_plain_name(bare),
        forall|i: int| 0 < i < bare.len() ==> bare[i] != DOT,
    ensures
        ({
            let kind = entry_kind_of(joined_path(dir, stem.push(DOT) + extension));
            let script = extension == bytes_of("js"@) || extension == bytes_of("mjs"@) || extension
                == bytes_of("cjs"@);
            let typed = extension == bytes_of("ts"@) || extension == bytes_of("mts"@) || extension
                == bytes_of("cts"@);
            &&& kind is Script <==> script
            &&& kind is TypeScript <==> typed
            &&& kind is Program <==> !script && !typed
        }),
        entry_kind_of(joined_path(dir, bare)) is Program,
{
    law_the_extension_is_behind_the_last_dot(dir, stem, extension, bare);
    reveal_strlit("js");
    reveal_strlit("mjs");
    reveal_strlit("cjs");
    reveal_strlit("ts");
    reveal_strlit("mts");
    reveal_strlit("cts");
    vstd::utf8::is_ascii_chars_encode_utf8("js"@);
    vstd::utf8::is_ascii_chars_encode_utf8("mjs"@);
    vstd::utf8::is_ascii_chars_encode_utf8("cjs"@);
    vstd::utf8::is_ascii_chars_encode_utf8("ts"@);
    vstd::utf8::is_ascii_chars_encode_utf8("mts"@);
    vstd::utf8::is_ascii_chars_encode_utf8("cts"@);
    assert(bytes_of("js"@)[0] == 'j' as u8);
    assert(bytes_of("ts"@)[0] == 't' as u8);
    assert(bytes_of("mjs"@)[1] == 'j' as u8);
    assert(bytes_of("cjs"@)[1] == 'j' as u8);
    assert(bytes_of("mts"@)[1] == 't' as u8);
    assert(bytes_of("cts"@)[1] == 't' as u8);
    assert(bytes_of("js"@).len() == 2 && bytes_of("ts"@).len() == 2);
    assert(bytes_of("mjs"@).len() == 3 && bytes_of("cjs"@).len() == 3);
    assert(bytes_of("mts"@).len() == 3 && bytes_of("cts"@).len() == 3);
}

/// What an entrypoint is run with: it is handed to `node`, behind `tsx` where that
/// is needed, or is the program itself. It runs in its own directory, and never
/// needs the packages of the daemon that comes with the command line.
pub proof fn law_an_entrypoint_is_run_as_it_is(
    entry: Seq<u8>,
    current_dir: Seq<u8>,
    tsx_cli: Seq<u8>,
)
    ensures
        ({
            let command = entry_command(entry, current_dir, tsx_cli);
            &&& command.current_dir == current_dir
            &&& !command.requires_runtime_install
            &&& entry_kind_of(entry) is Program ==> command.program == lossy_text(entry)
                && command.args.len() == 0
            &&& !(entry_kind_of(entry) is Program) ==> command.program == "node"@
                && command.args.len() > 0 && command.args.last() == lossy_text(entry)
            &&& entry_kind_of(entry) is Script ==> command.args.len() == 1
            &&& entry_kind_of(entry) is TypeScript ==> command.args.len() == 2 && command.args[0]
                == lossy_text(tsx_cli)
        }),
{
}

/// `tsx` is looked for in the packages of the entrypoint itself and then of every
/// directory above it, up to the last.
pub proof fn law_tsx_is_looked_for_upwards(entry: Seq<u8>)
    ensures
        tsx_candidates(entry).len() == ancestors(entry).len(),
        forall|i: int|
            0 <= i < ancestors(entry).len() ==> path_parts(#[trigger] tsx_candidates(entry)[i])
                == path_parts(ancestors(entry)[i]).push(
                PathPart::Normal(bytes_of("node_modules"@)),
            ).push(PathPart::Normal(bytes_of("tsx"@))).push(
                PathPart::Normal(bytes_of("dist"@)),
            ).push(PathPart::Normal(bytes_of("cli.mjs"@))),
{
    reveal_strlit("node_modules");
    reveal_strlit("tsx");
    reveal_strlit("dist");
    reveal_strlit("cli.mjs");
    vstd::utf8::is_ascii_chars_encode_utf8("node_modules"@);
    vstd::utf8::is_ascii_chars_encode_utf8("tsx"@);
    vstd::utf8::is_ascii_chars_encode_utf8("dist"@);
    vstd::utf8::is_ascii_chars_encode_utf8("cli.mjs"@);
    assert forall|i: int| 0 <= i < ancestors(entry).len() implies path_parts(
        #[trigger] tsx_candidates(entry)[i],
    ) == path_parts(ancestors(entry)[i]).push(PathPart::Normal(bytes_of("node_modules"@))).push(
        PathPart::Normal(bytes_of("tsx"@)),
    ).push(PathPart::Normal(bytes_of("dist"@))).push(PathPart::Normal(bytes_of("cli.mjs"@))) by {
        let dir = ancestors(entry)[i];
        let modules = joined_path(dir, bytes_of("node_modules"@));
        let tsx = joined_path(modules, bytes_of("tsx"@));
        let dist = joined_path(tsx, bytes_of("dist"@));
        law_join_adds_one_part(dir, bytes_of("node_modules"@));
        law_join_adds_one_part(modules, bytes_of("tsx"@));
        law_join_adds_one_part(tsx, bytes_of("dist"@));
        law_join_adds_one_part(dist, bytes_of("cli.mjs"@));
    }
}

/// What is found is the first of the places that is there, on a disk that does not
/// change.
pub proof fn law_the_first_place_that_is_there_is_found<F: Fn(&FilePath) -> bool>(
    is_file: F,
    files: Set<Seq<u8>>,
    places: Seq<Seq<u8>>,
    path: Seq<u8>,
)
    requires
        forall|asked: FilePath, answer: bool| #[trigger]
            call_ensures(is_file, (&asked,), answer) ==> answer == files.contains(asked@),
        finds(is_file, places, path),
    ensures
        files.contains(path),
        exists|index: int|
            {
                &&& 0 <= index < places.len()
                &&& #[trigger] places[index] == path
                &&& forall|j: int| 0 <= j < index ==> !files.contains(#[trigger] places[j])
            },
{
    let index = choose|index: int| #[trigger] first_found(is_file, places, index, path);
    assert(places[index] == path);
    assert forall|j: int| 0 <= j < index implies !files.contains(#[trigger] places[j]) by {
        assert(answers(is_file, places[j], false));
    }
}

/// A package is installed exactly if its manifest is among the files, on a disk
/// that does not change; and the manifest is that of the package in the packages
/// of the directory.
pub proof fn law_a_package_is_installed_with_its_manifest<F: Fn(&FilePath) -> bool>(
    is_file: F,
    files: Set<Seq<u8>>,
    base_dir: Seq<u8>,
    package_name: Seq<char>,
    installed: bool,
)
    requires
        forall|asked: FilePath, answer: bool| #[trigger]
            call_ensures(is_file, (&asked,), answer) ==> answer == files.contains(asked@),
        answers(is_file, manifest_of(base_dir, package_name), installed),
        is_plain_name(bytes_of(package_name)),
    ensures
        installed == files.contains(manifest_of(base_dir, package_name)),
        path_parts(manifest_of(base_dir, package_name)) == path_parts(base_dir).push(
            PathPart::Normal(bytes_of("node_modules"@)),
        ).push(PathPart::Normal(bytes_of(package_name))).push(
            PathPart::Normal(bytes_of("package.json"@)),
        ),
{
    reveal_strlit("node_modules");
    reveal_strlit("package.json");
    vstd::utf8::is_ascii_chars_encode_utf8("node_modules"@);
    vstd::utf8::is_ascii_chars_encode_utf8("package.json"@);
    let modules = joined_path(base_dir, bytes_of("node_modules"@));
    law_join_adds_one_part(base_dir, bytes_of("node_modules"@));
    law_join_adds_one_part(modules, bytes_of(package_name));
    law_join_adds_one_part(joined_path(modules, bytes_of(package_name)), bytes_of("package.json"@));
}

/// The three files that come with the command line have names of their own, and
/// all of them are put in place, the daemon first.
pub proof fn law_every_embedded_file_is_put_in_place(file: EmbeddedFile)
    ensures
        embedded_files().contains(file),
        embedded_files().no_duplicates(),
        embedded_files()[0] is Daemon,
        file is Daemon <==> embedded_name(file) == "daemon.mjs"@,
        file is SandboxClient <==> embedded_name(file) == "sandbox-client.js"@,
        file is PackageManifest <==> embedded_name(file) == "package.json"@,
{
    assert(embedded_files()[0] == EmbeddedFile::Daemon);
    assert(embedded_files()[1] == EmbeddedFile::SandboxClient);
    assert(embedded_files()[2] == EmbeddedFile::PackageManifest);
    reveal_strlit("daemon.mjs");
    reveal_strlit("sandbox-client.js");
    reveal_strlit("package.json");
    assert("daemon.mjs"@.len() == 10);
    assert("sandbox-client.js"@.len() == 17);
    assert("package.json"@.len() == 12);
}

/// A file is written anew exactly if it does not hold the contents already, and
/// then by way of a file of this process; one that cannot be read is left alone,
/// and the reason is passed on.
pub proof fn law_a_file_is_written_only_if_it_differs(
    path: Seq<u8>,
    contents: Seq<char>,
    existing: ExistingFile,
    pid: nat,
)
    ensures
        sync_outcome(path, contents, existing, pid) is Err <==> existing is Unreadable,
        existing matches ExistingFile::Unreadable(reason) ==> sync_outcome(
            path,
            contents,
            existing,
            pid,
        ) == Err::<Option<Seq<u8>>, Seq<char>>(reason@),
        sync_outcome(path, contents, existing, pid) matches Ok(written) ==> {
            &&& written is None <==> (existing matches ExistingFile::Contents(text) && text@
                == contents)
            &&& written is Some ==> written == Some(
                path_with_extension(path, bytes_of("tmp."@ + decimal(pid))),
            )
        },
{
}

/// A command is modelled by what it runs, and a place by its bytes.
pub proof fn law_commands_are_modelled_by_what_they_run(
    command: DaemonCommand,
    path: FilePath,
    error: ToolEnvironmentError,
)
    ensures
        command@.program == command.program@,
        command@.args.len() == command.args@.len(),
        forall|i: int|
            0 <= i < command.args@.len() ==> #[trigger] command@.args[i] == command.args@[i]@,
        command@.current_dir == command.current_dir@,
        command@.requires_runtime_install == command.requires_runtime_install,
        tool_outcome(Ok(path)) == Ok::<Seq<u8>, Seq<char>>(path@),
        tool_outcome(Err(error)) == Err::<Seq<u8>, Seq<char>>(error.0@),
{
}

} // verus!
