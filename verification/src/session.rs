//! What a command of the command line does, step by step.
//!
//! The steps that reach outside (reading a script, starting the daemon,
//! sending a request) are named by a [`RunAction`]; whoever performs one hands
//! back what came of it as a [`RunEvent`].

use vstd::prelude::*;
use vstd::string::*;

use crate::exit_code::{cli_outcome, code_of, CliError, ErrorModel, ExitCode};
use crate::json::{member_of, JsonModel};
use crate::request::{
    law_requests_say_what_they_ask, request_document, Request, RequestModel, ScriptModel,
    ScriptRequest,
};
use crate::response::ResultMode;
use crate::text::{decimal, option_view};

verus! {

/// How long to wait for the daemon to exit.
pub const STOP_TIMEOUT_SECS: u64 = 10;

/// A command of the command line.
#[derive(Debug)]
pub enum Command {
    Run { file: String },
    Install,
    InstallSkill { claude: bool, agents: bool, codex: bool },
    Browsers { json: bool },
    Status { json: bool },
    Stop { browser: Option<String> },
    Capabilities { json: bool },
    RobotDocs,
}

/// What the command line says.
#[derive(Debug)]
pub struct Cli {
    pub browser: String,
    pub connect: Option<String>,
    pub headless: bool,
    pub ignore_https_errors: bool,
    pub timeout: u32,
    pub command: Option<Command>,
}

/// The request to run a script.
pub open spec fn script_of(cli: Cli, script: Seq<char>) -> ScriptModel {
    ScriptModel {
        browser: cli.browser@,
        script,
        timeout_ms: (cli.timeout * 1_000) as u64,
        headless: cli.headless,
        ignore_https_errors: cli.ignore_https_errors,
        connect: option_view(cli.connect),
    }
}

fn copy_option(text: &Option<String>) -> (copy: Option<String>)
    ensures
        option_view(copy) == option_view(*text),
{
    match text {
        Some(text) => Some(text.clone()),
        None => None,
    }
}

/// Makes up the request to run a script.
pub fn run_script(cli: &Cli, script: String) -> (request: ScriptRequest)
    ensures
        request@ == script_of(*cli, script@),
        request.browser@ == cli.browser@,
        request.script@ == script@,
        request.timeout_ms == cli.timeout * 1_000,
        request.headless == cli.headless,
        request.ignore_https_errors == cli.ignore_https_errors,
        option_view(request.connect) == option_view(cli.connect),
{
    ScriptRequest {
        browser: cli.browser.clone(),
        script,
        timeout_ms: cli.timeout as u64 * 1_000,
        headless: cli.headless,
        ignore_https_errors: cli.ignore_https_errors,
        connect: copy_option(&cli.connect),
    }
}

/// What to do once the daemon has answered.
#[derive(Debug)]
pub enum Afterwards {
    Finish,
    BrowserStopped(String),
    DaemonStopped(Option<i32>),
}

/// How far a command has come.
#[derive(Debug)]
pub enum RunStage {
    Started,
    ReadingScript,
    EnsuringDaemon { request: Request, mode: ResultMode },
    LookingForDaemon,
    LookingUpPid,
    Awaiting(Afterwards),
    AwaitingExit,
    Performing(ExitCode),
    Over,
}

/// What came of an action.
#[derive(Debug)]
pub enum RunEvent {
    Begun { stdin_is_tty: bool },
    ScriptRead(Result<String, CliError>),
    DaemonEnsured(Result<(), CliError>),
    DaemonFound(bool),
    PidFound(Option<i32>),
    Answered(Result<i32, CliError>),
    DaemonExited(Result<(), CliError>),
    Performed(Result<(), CliError>),
}

/// What to do next.
#[derive(Debug)]
pub enum RunAction {
    ReadFile(String),
    ReadStdin,
    EnsureDaemon,
    LookForDaemon,
    LookUpPid,
    Send { request: Request, mode: ResultMode },
    AwaitExit { pid: i32, timeout_secs: u64 },
    Install,
    InstallSkill { claude: bool, agents: bool, codex: bool },
    PrintCapabilities { json: bool },
    PrintGuide,
    PrintHelp,
    Finish { note: Option<String>, outcome: Result<i32, CliError> },
    Nothing,
}

/// What to do once the daemon has answered.
pub enum AfterwardsModel {
    Finish,
    BrowserStopped(Seq<char>),
    DaemonStopped(Option<i32>),
}

/// How far a command has come.
pub enum StageModel {
    Started,
    ReadingScript,
    EnsuringDaemon { request: RequestModel, mode: ResultMode },
    LookingForDaemon,
    LookingUpPid,
    Awaiting(AfterwardsModel),
    AwaitingExit,
    Performing(ExitCode),
    Over,
}

/// What came of an action.
pub enum EventModel {
    Begun { stdin_is_tty: bool },
    ScriptRead(Result<Seq<char>, ErrorModel>),
    DaemonEnsured(Result<(), ErrorModel>),
    DaemonFound(bool),
    PidFound(Option<i32>),
    Answered(Result<i32, ErrorModel>),
    DaemonExited(Result<(), ErrorModel>),
    Performed(Result<(), ErrorModel>),
}

/// What to do next.
pub enum ActionModel {
    ReadFile(Seq<char>),
    ReadStdin,
    EnsureDaemon,
    LookForDaemon,
    LookUpPid,
    Send { request: RequestModel, mode: ResultMode },
    AwaitExit { pid: i32, timeout_secs: u64 },
    Install,
    InstallSkill { claude: bool, agents: bool, codex: bool },
    PrintCapabilities { json: bool },
    PrintGuide,
    PrintHelp,
    Finish { note: Option<Seq<char>>, outcome: Result<i32, ErrorModel> },
    Nothing,
}

impl View for Afterwards {
    type V = AfterwardsModel;

    open spec fn view(&self) -> AfterwardsModel {
        match self {
            Afterwards::Finish => AfterwardsModel::Finish,
            Afterwards::BrowserStopped(browser) => AfterwardsModel::BrowserStopped(browser@),
            Afterwards::DaemonStopped(pid) => AfterwardsModel::DaemonStopped(*pid),
        }
    }
}

impl View for RunStage {
    type V = StageModel;

    open spec fn view(&self) -> StageModel {
        match self {
            RunStage::Started => StageModel::Started,
            RunStage::ReadingScript => StageModel::ReadingScript,
            RunStage::EnsuringDaemon { request, mode } => StageModel::EnsuringDaemon {
                request: request@,
                mode: *mode,
            },
            RunStage::LookingForDaemon => StageModel::LookingForDaemon,
            RunStage::LookingUpPid => StageModel::LookingUpPid,
            RunStage::Awaiting(afterwards) => StageModel::Awaiting(afterwards@),
            RunStage::AwaitingExit => StageModel::AwaitingExit,
            RunStage::Performing(code) => StageModel::Performing(*code),
            RunStage::Over => StageModel::Over,
        }
    }
}

impl View for RunEvent {
    type V = EventModel;

    open spec fn view(&self) -> EventModel {
        match self {
            RunEvent::Begun { stdin_is_tty } => EventModel::Begun { stdin_is_tty: *stdin_is_tty },
            RunEvent::ScriptRead(outcome) => EventModel::ScriptRead(
                match outcome {
                    Ok(script) => Ok(script@),
                    Err(error) => Err(error@),
                },
            ),
            RunEvent::DaemonEnsured(outcome) => EventModel::DaemonEnsured(cli_outcome(*outcome)),
            RunEvent::DaemonFound(found) => EventModel::DaemonFound(*found),
            RunEvent::PidFound(pid) => EventModel::PidFound(*pid),
            RunEvent::Answered(outcome) => EventModel::Answered(cli_outcome(*outcome)),
            RunEvent::DaemonExited(outcome) => EventModel::DaemonExited(cli_outcome(*outcome)),
            RunEvent::Performed(outcome) => EventModel::Performed(cli_outcome(*outcome)),
        }
    }
}

impl View for RunAction {
    type V = ActionModel;

    open spec fn view(&self) -> ActionModel {
        match self {
            RunAction::ReadFile(file) => ActionModel::ReadFile(file@),
            RunAction::ReadStdin => ActionModel::ReadStdin,
            RunAction::EnsureDaemon => ActionModel::EnsureDaemon,
            RunAction::LookForDaemon => ActionModel::LookForDaemon,
            RunAction::LookUpPid => ActionModel::LookUpPid,
            RunAction::Send { request, mode } => ActionModel::Send {
                request: request@,
                mode: *mode,
            },
            RunAction::AwaitExit { pid, timeout_secs } => ActionModel::AwaitExit {
                pid: *pid,
                timeout_secs: *timeout_secs,
            },
            RunAction::Install => ActionModel::Install,
            RunAction::InstallSkill { claude, agents, codex } => ActionModel::InstallSkill {
                claude: *claude,
                agents: *agents,
                codex: *codex,
            },
            RunAction::PrintCapabilities { json } => ActionModel::PrintCapabilities { json: *json },
            RunAction::PrintGuide => ActionModel::PrintGuide,
            RunAction::PrintHelp => ActionModel::PrintHelp,
            RunAction::Finish { note, outcome } => ActionModel::Finish {
                note: match note {
                    Some(note) => Some(note@),
                    None => None,
                },
                outcome: cli_outcome(*outcome),
            },
            RunAction::Nothing => ActionModel::Nothing,
        }
    }
}

/// The end of a command.
pub open spec fn finished(note: Option<Seq<char>>, outcome: Result<i32, ErrorModel>) -> (
    StageModel,
    ActionModel,
) {
    (StageModel::Over, ActionModel::Finish { note, outcome })
}

/// How a list of results is shown.
pub open spec fn listing_mode(json: bool, table: ResultMode) -> ResultMode {
    if json {
        ResultMode::Json
    } else {
        table
    }
}

/// The first step of a command.
pub open spec fn first_step(cli: Cli, stdin_is_tty: bool) -> (StageModel, ActionModel) {
    match cli.command {
        Some(Command::Run { file }) => (StageModel::ReadingScript, ActionModel::ReadFile(file@)),
        Some(Command::Browsers { json }) => (
            StageModel::EnsuringDaemon {
                request: RequestModel::Browsers,
                mode: listing_mode(json, ResultMode::Browsers),
            },
            ActionModel::EnsureDaemon,
        ),
        Some(Command::Status { json }) => (
            StageModel::EnsuringDaemon {
                request: RequestModel::Status,
                mode: listing_mode(json, ResultMode::Status),
            },
            ActionModel::EnsureDaemon,
        ),
        Some(Command::Install) => (StageModel::Performing(ExitCode::Success), ActionModel::Install),
        Some(Command::InstallSkill { claude, agents, codex }) => (
            StageModel::Performing(ExitCode::Success),
            ActionModel::InstallSkill { claude, agents, codex },
        ),
        Some(Command::Stop { .. }) => (StageModel::LookingForDaemon, ActionModel::LookForDaemon),
        Some(Command::Capabilities { json }) => (
            StageModel::Performing(ExitCode::Success),
            ActionModel::PrintCapabilities { json },
        ),
        Some(Command::RobotDocs) => (
            StageModel::Performing(ExitCode::Success),
            ActionModel::PrintGuide,
        ),
        None => if stdin_is_tty {
            (StageModel::Performing(ExitCode::Usage), ActionModel::PrintHelp)
        } else {
            (StageModel::ReadingScript, ActionModel::ReadStdin)
        },
    }
}

/// The browser that a command stops, if it stops just one.
pub open spec fn browser_to_stop(cli: Cli) -> Option<Seq<char>> {
    match cli.command {
        Some(Command::Stop { browser }) => option_view(browser),
        _ => None,
    }
}

/// What is said when the daemon has stopped.
pub open spec fn daemon_stopped_note() -> Seq<char> {
    "Stopped the daemon and all managed browsers."@
}

/// What is said when a browser has stopped.
pub open spec fn browser_stopped_note(browser: Seq<char>) -> Seq<char> {
    "Stopped browser '"@ + browser + "'. The daemon and other browsers keep running."@
}

/// What follows the answer of the daemon.
pub open spec fn answered(afterwards: AfterwardsModel, code: i32) -> (StageModel, ActionModel) {
    if code != 0 {
        finished(None, Ok(code))
    } else {
        match afterwards {
            AfterwardsModel::Finish => finished(None, Ok(code)),
            AfterwardsModel::BrowserStopped(browser) => finished(
                Some(browser_stopped_note(browser)),
                Ok(code),
            ),
            AfterwardsModel::DaemonStopped(Some(pid)) => (
                StageModel::AwaitingExit,
                ActionModel::AwaitExit { pid, timeout_secs: STOP_TIMEOUT_SECS },
            ),
            AfterwardsModel::DaemonStopped(None) => finished(
                Some(daemon_stopped_note()),
                Ok(code),
            ),
        }
    }
}

/// The next step of a command. An event that does not belong to the stage
/// changes nothing.
pub open spec fn run_step(cli: Cli, stage: StageModel, event: EventModel) -> (
    StageModel,
    ActionModel,
) {
    match (stage, event) {
        (StageModel::Started, EventModel::Begun { stdin_is_tty }) => first_step(cli, stdin_is_tty),
        (StageModel::ReadingScript, EventModel::ScriptRead(Ok(script))) => (
            StageModel::EnsuringDaemon {
                request: RequestModel::Execute(script_of(cli, script)),
                mode: ResultMode::Json,
            },
            ActionModel::EnsureDaemon,
        ),
        (StageModel::ReadingScript, EventModel::ScriptRead(Err(error))) => finished(
            None,
            Err(error),
        ),
        (
            StageModel::EnsuringDaemon { request, mode },
            EventModel::DaemonEnsured(Ok(_)),
        ) => (
            StageModel::Awaiting(AfterwardsModel::Finish),
            ActionModel::Send { request, mode },
        ),
        (StageModel::EnsuringDaemon { .. }, EventModel::DaemonEnsured(Err(error))) => finished(
            None,
            Err(error),
        ),
        (StageModel::LookingForDaemon, EventModel::DaemonFound(found)) => if !found {
            finished(Some("Daemon is not running."@), Ok(0))
        } else {
            match browser_to_stop(cli) {
                Some(browser) => (
                    StageModel::Awaiting(AfterwardsModel::BrowserStopped(browser)),
                    ActionModel::Send {
                        request: RequestModel::BrowserStop(browser),
                        mode: ResultMode::Silent,
                    },
                ),
                None => (StageModel::LookingUpPid, ActionModel::LookUpPid),
            }
        },
        (StageModel::LookingUpPid, EventModel::PidFound(pid)) => (
            StageModel::Awaiting(AfterwardsModel::DaemonStopped(pid)),
            ActionModel::Send { request: RequestModel::Stop, mode: ResultMode::Silent },
        ),
        (StageModel::Awaiting(afterwards), EventModel::Answered(Ok(code))) => answered(
            afterwards,
            code,
        ),
        (StageModel::Awaiting(_), EventModel::Answered(Err(error))) => finished(None, Err(error)),
        (StageModel::AwaitingExit, EventModel::DaemonExited(Ok(_))) => finished(
            Some(daemon_stopped_note()),
            Ok(0),
        ),
        (StageModel::AwaitingExit, EventModel::DaemonExited(Err(error))) => finished(
            None,
            Err(error),
        ),
        (StageModel::Performing(code), EventModel::Performed(Ok(_))) => finished(
            None,
            Ok(code_of(code)),
        ),
        (StageModel::Performing(_), EventModel::Performed(Err(error))) => finished(
            None,
            Err(error),
        ),
        _ => (stage, ActionModel::Nothing),
    }
}

fn finish(note: Option<String>, outcome: Result<i32, CliError>) -> (step: (RunStage, RunAction))
    ensures
        (step.0@, step.1@) == finished(option_view(note), cli_outcome(outcome)),
{
    (RunStage::Over, RunAction::Finish { note, outcome })
}

/// Whether an action is the one that a command begins with: each has its own,
/// and without a command it depends on whether there is somebody at the
/// terminal.
pub open spec fn begins_with(cli: Cli, stdin_is_tty: bool, action: RunAction) -> bool {
    match (action, cli.command) {
        (RunAction::ReadFile(path), Some(Command::Run { file })) => path@ == file@,
        (RunAction::Install, Some(Command::Install)) => true,
        (RunAction::InstallSkill { claude, agents, codex }, Some(command)) => command == (
        Command::InstallSkill { claude, agents, codex }),
        (RunAction::EnsureDaemon, Some(Command::Browsers { .. })) => true,
        (RunAction::EnsureDaemon, Some(Command::Status { .. })) => true,
        (RunAction::LookForDaemon, Some(Command::Stop { .. })) => true,
        (RunAction::PrintCapabilities { json }, Some(command)) => command == (
        Command::Capabilities { json }),
        (RunAction::PrintGuide, Some(Command::RobotDocs)) => true,
        (RunAction::PrintHelp, None) => stdin_is_tty,
        (RunAction::ReadStdin, None) => !stdin_is_tty,
        _ => false,
    }
}

fn begin(cli: &Cli, stdin_is_tty: bool) -> (step: (RunStage, RunAction))
    ensures
        (step.0@, step.1@) == first_step(*cli, stdin_is_tty),
        begins_with(*cli, stdin_is_tty, step.1),
{
    match &cli.command {
        Some(Command::Run { file }) => (
            RunStage::ReadingScript,
            RunAction::ReadFile(file.clone()),
        ),
        Some(Command::Browsers { json }) => {
            let mode = if *json {
                ResultMode::Json
            } else {
                ResultMode::Browsers
            };
            (
                RunStage::EnsuringDaemon { request: Request::Browsers, mode },
                RunAction::EnsureDaemon,
            )
        },
        Some(Command::Status { json }) => {
            let mode = if *json {
                ResultMode::Json
            } else {
                ResultMode::Status
            };
            (RunStage::EnsuringDaemon { request: Request::Status, mode }, RunAction::EnsureDaemon)
        },
        Some(Command::Install) => (RunStage::Performing(ExitCode::Success), RunAction::Install),
        Some(Command::InstallSkill { claude, agents, codex }) => (
            RunStage::Performing(ExitCode::Success),
            RunAction::InstallSkill { claude: *claude, agents: *agents, codex: *codex },
        ),
        Some(Command::Stop { browser: _ }) => (
            RunStage::LookingForDaemon,
            RunAction::LookForDaemon,
        ),
        Some(Command::Capabilities { json }) => (
            RunStage::Performing(ExitCode::Success),
            RunAction::PrintCapabilities { json: *json },
        ),
        Some(Command::RobotDocs) => (
            RunStage::Performing(ExitCode::Success),
            RunAction::PrintGuide,
        ),
        None => if stdin_is_tty {
            (RunStage::Performing(ExitCode::Usage), RunAction::PrintHelp)
        } else {
            (RunStage::ReadingScript, RunAction::ReadStdin)
        },
    }
}

fn daemon_found(cli: &Cli, found: bool) -> (step: (RunStage, RunAction))
    ensures
        (step.0@, step.1@) == run_step(
            *cli,
            StageModel::LookingForDaemon,
            EventModel::DaemonFound(found),
        ),
{
    if !found {
        return finish(Some("Daemon is not running.".to_string()), Ok(0));
    }
    if let Some(Command::Stop { browser: Some(browser) }) = &cli.command {
        return (
            RunStage::Awaiting(Afterwards::BrowserStopped(browser.clone())),
            RunAction::Send {
                request: Request::BrowserStop(browser.clone()),
                mode: ResultMode::Silent,
            },
        );
    }
    (RunStage::LookingUpPid, RunAction::LookUpPid)
}

fn after_answer(afterwards: Afterwards, code: i32) -> (step: (RunStage, RunAction))
    ensures
        (step.0@, step.1@) == answered(afterwards@, code),
{
    if code != 0 {
        return finish(None, Ok(code));
    }
    match afterwards {
        Afterwards::Finish => finish(None, Ok(code)),
        Afterwards::BrowserStopped(browser) => {
            let mut note = "Stopped browser '".to_string();
            note.append(&browser);
            note.append("'. The daemon and other browsers keep running.");
            finish(Some(note), Ok(code))
        },
        Afterwards::DaemonStopped(Some(pid)) => (
            RunStage::AwaitingExit,
            RunAction::AwaitExit { pid, timeout_secs: STOP_TIMEOUT_SECS },
        ),
        Afterwards::DaemonStopped(None) => finish(
            Some("Stopped the daemon and all managed browsers.".to_string()),
            Ok(code),
        ),
    }
}

/// Decides the next step of a command.
pub fn run(cli: &Cli, stage: RunStage, event: RunEvent) -> (step: (RunStage, RunAction))
    ensures
        (step.0@, step.1@) == run_step(*cli, stage@, event@),
        stage is Started ==> (event matches RunEvent::Begun { stdin_is_tty } ==> begins_with(
            *cli,
            stdin_is_tty,
            step.1,
        )),
{
    match (stage, event) {
        (RunStage::Started, RunEvent::Begun { stdin_is_tty }) => begin(cli, stdin_is_tty),
        (RunStage::ReadingScript, RunEvent::ScriptRead(Ok(script))) => (
            RunStage::EnsuringDaemon {
                request: Request::Execute(run_script(cli, script)),
                mode: ResultMode::Json,
            },
            RunAction::EnsureDaemon,
        ),
        (RunStage::ReadingScript, RunEvent::ScriptRead(Err(error))) => finish(None, Err(error)),
        (RunStage::EnsuringDaemon { request, mode }, RunEvent::DaemonEnsured(Ok(_))) => (
            RunStage::Awaiting(Afterwards::Finish),
            RunAction::Send { request, mode },
        ),
        (
            RunStage::EnsuringDaemon { request: _, mode: _ },
            RunEvent::DaemonEnsured(Err(error)),
        ) => finish(None, Err(error)),
        (RunStage::LookingForDaemon, RunEvent::DaemonFound(found)) => daemon_found(cli, found),
        (RunStage::LookingUpPid, RunEvent::PidFound(pid)) => (
            RunStage::Awaiting(Afterwards::DaemonStopped(pid)),
            RunAction::Send { request: Request::Stop, mode: ResultMode::Silent },
        ),
        (RunStage::Awaiting(afterwards), RunEvent::Answered(Ok(code))) => after_answer(
            afterwards,
            code,
        ),
        (RunStage::Awaiting(_), RunEvent::Answered(Err(error))) => finish(None, Err(error)),
        (RunStage::AwaitingExit, RunEvent::DaemonExited(Ok(_))) => finish(
            Some("Stopped the daemon and all managed browsers.".to_string()),
            Ok(0),
        ),
        (RunStage::AwaitingExit, RunEvent::DaemonExited(Err(error))) => finish(None, Err(error)),
        (RunStage::Performing(code), RunEvent::Performed(Ok(_))) => finish(None, Ok(code.code())),
        (RunStage::Performing(_), RunEvent::Performed(Err(error))) => finish(None, Err(error)),
        (stage, _) => (stage, RunAction::Nothing),
    }
}

// ---------------------------------------------------------------------------
// Laws
// ---------------------------------------------------------------------------

/// Whether a command runs a script.
pub open spec fn runs_script(cli: Cli) -> bool {
    match cli.command {
        None => true,
        Some(Command::Run { .. }) => true,
        _ => false,
    }
}

/// Whether a command stops the daemon altogether.
pub open spec fn stops_daemon(cli: Cli) -> bool {
    match cli.command {
        Some(Command::Stop { browser }) => browser is None,
        _ => false,
    }
}

/// Whether a command may send a request.
pub open spec fn may_send(cli: Cli, request: RequestModel) -> bool {
    match request {
        RequestModel::Execute(script) => runs_script(cli) && script == script_of(
            cli,
            script.script,
        ),
        RequestModel::Browsers => cli.command matches Some(Command::Browsers { .. }),
        RequestModel::Status => cli.command matches Some(Command::Status { .. }),
        RequestModel::BrowserStop(browser) => browser_to_stop(cli) == Some(browser),
        RequestModel::Stop => stops_daemon(cli),
    }
}

/// Whether a command can come to a stage.
pub open spec fn belongs(cli: Cli, stage: StageModel) -> bool {
    match stage {
        StageModel::Started => true,
        StageModel::Over => true,
        StageModel::ReadingScript => runs_script(cli),
        StageModel::EnsuringDaemon { request, .. } => may_send(cli, request)
            && !(request is BrowserStop) && !(request is Stop),
        StageModel::LookingForDaemon => stops_daemon(cli) || browser_to_stop(cli) is Some,
        StageModel::LookingUpPid => stops_daemon(cli),
        StageModel::Awaiting(AfterwardsModel::Finish) => !stops_daemon(cli) && browser_to_stop(
            cli,
        ) is None,
        StageModel::Awaiting(AfterwardsModel::BrowserStopped(browser)) => browser_to_stop(cli)
            == Some(browser),
        StageModel::Awaiting(AfterwardsModel::DaemonStopped(_)) => stops_daemon(cli),
        StageModel::AwaitingExit => stops_daemon(cli),
        StageModel::Performing(code) => if cli.command is None {
            code == ExitCode::Usage
        } else {
            code == ExitCode::Success
        },
    }
}

/// At whatever stage a command is, its next step keeps to the command: it
/// comes to a stage of that command, and sends only the requests that the
/// command asks for.
pub proof fn law_steps_keep_to_the_command(cli: Cli, stage: StageModel, event: EventModel)
    requires
        belongs(cli, stage),
    ensures
        belongs(cli, run_step(cli, stage, event).0),
        run_step(cli, stage, event).1 matches ActionModel::Send { request, .. } ==> may_send(
            cli,
            request,
        ),
{
}

/// To stop one browser never stops the daemon: it is never asked to stop, and
/// its exit is never waited for.
pub proof fn law_stopping_a_browser_spares_the_daemon(
    cli: Cli,
    stage: StageModel,
    event: EventModel,
)
    requires
        belongs(cli, stage),
        browser_to_stop(cli) is Some,
    ensures
        run_step(cli, stage, event).1 matches ActionModel::Send { request, .. } ==> request
            == RequestModel::BrowserStop(browser_to_stop(cli)->0),
        !(run_step(cli, stage, event).1 is AwaitExit),
{
}

/// A request is sent only after the daemon was found or made to run.
pub proof fn law_the_daemon_runs_before_a_request(
    cli: Cli,
    stage: StageModel,
    event: EventModel,
)
    requires
        run_step(cli, stage, event).1 is Send,
    ensures
        match event {
            EventModel::DaemonEnsured(outcome) => outcome is Ok,
            EventModel::DaemonFound(found) => found,
            EventModel::PidFound(_) => stage is LookingUpPid,
            _ => false,
        },
{
}

/// The number of the process is looked up only after the daemon was found.
pub proof fn law_the_pid_is_looked_up_of_a_running_daemon(
    cli: Cli,
    stage: StageModel,
    event: EventModel,
)
    requires
        run_step(cli, stage, event).0 is LookingUpPid,
    ensures
        stage is LookingUpPid || event == EventModel::DaemonFound(true),
{
}

/// To stop a daemon that does not run is no error: nothing is sent.
pub proof fn law_stopping_nothing_succeeds(cli: Cli)
    ensures
        run_step(cli, StageModel::LookingForDaemon, EventModel::DaemonFound(false)) == finished(
            Some("Daemon is not running."@),
            Ok(0),
        ),
{
}

/// That the daemon has stopped is said only once it has exited, or once it has
/// agreed to stop and nobody knows its process.
pub proof fn law_a_stop_is_claimed_only_when_done(cli: Cli, stage: StageModel, event: EventModel)
    requires
        run_step(cli, stage, event).1 matches ActionModel::Finish { note, .. } && note == Some(
            daemon_stopped_note(),
        ),
    ensures
        match event {
            EventModel::DaemonExited(outcome) => stage is AwaitingExit && outcome is Ok,
            EventModel::Answered(outcome) => stage == StageModel::Awaiting(
                AfterwardsModel::DaemonStopped(None),
            ) && outcome == Ok::<i32, ErrorModel>(0),
            _ => false,
        },
{
    reveal_strlit("Stopped the daemon and all managed browsers.");
    reveal_strlit("Stopped browser '");
    reveal_strlit("Daemon is not running.");
    assert(daemon_stopped_note()[8] == 't');
    assert("Daemon is not running."@[0] == 'D');
    if let StageModel::Awaiting(AfterwardsModel::BrowserStopped(browser)) = stage {
        assert(browser_stopped_note(browser)[8] == 'b');
    }
}

/// Without a command and a script nothing is run: the help is printed, and the
/// exit code is the one for a wrong usage.
pub proof fn law_no_script_is_a_usage_error(cli: Cli)
    requires
        cli.command is None,
    ensures
        ({
            let first = run_step(
                cli,
                StageModel::Started,
                EventModel::Begun { stdin_is_tty: true },
            );
            &&& first.1 == ActionModel::PrintHelp
            &&& run_step(cli, first.0, EventModel::Performed(Ok(()))) == finished(
                None,
                Ok(code_of(ExitCode::Usage)),
            )
        }),
{
}

/// An error ends the command at once, with that error, whatever it came of.
pub proof fn law_an_error_ends_the_command(
    cli: Cli,
    stage: StageModel,
    event: EventModel,
    error: ErrorModel,
)
    requires
        match event {
            EventModel::ScriptRead(outcome) => stage is ReadingScript && outcome == Err::<
                Seq<char>,
                ErrorModel,
            >(error),
            EventModel::DaemonEnsured(outcome) => stage is EnsuringDaemon && outcome == Err::<
                (),
                ErrorModel,
            >(error),
            EventModel::Answered(outcome) => stage is Awaiting && outcome == Err::<
                i32,
                ErrorModel,
            >(error),
            EventModel::DaemonExited(outcome) => stage is AwaitingExit && outcome == Err::<
                (),
                ErrorModel,
            >(error),
            EventModel::Performed(outcome) => stage is Performing && outcome == Err::<
                (),
                ErrorModel,
            >(error),
            _ => false,
        },
    ensures
        run_step(cli, stage, event) == finished(None, Err(error)),
{
}

/// Whatever the settings are, the request to run a script has each of them as
/// the command line says it: the browser, the endpoint to connect to, whether
/// the browser has a window, whether bad certificates are put up with, and how
/// long the script may run.
pub proof fn law_a_script_runs_as_the_command_line_says(cli: Cli, script: Seq<char>)
    ensures
        ({
            let ready = run_step(
                cli,
                StageModel::ReadingScript,
                EventModel::ScriptRead(Ok(script)),
            );
            let sent = run_step(cli, ready.0, EventModel::DaemonEnsured(Ok(())));
            &&& ready.1 is EnsureDaemon
            &&& sent.0 == StageModel::Awaiting(AfterwardsModel::Finish)
            &&& sent.1 is Send
            &&& sent.1->mode == ResultMode::Json
            &&& sent.1->request is Execute
            &&& sent.1->request->Execute_0.script == script
            &&& sent.1->request->Execute_0.browser == cli.browser@
            &&& sent.1->request->Execute_0.headless == cli.headless
            &&& sent.1->request->Execute_0.ignore_https_errors == cli.ignore_https_errors
            &&& sent.1->request->Execute_0.timeout_ms == cli.timeout * 1_000
            &&& cli.connect is None <==> sent.1->request->Execute_0.connect is None
            &&& cli.connect matches Some(endpoint) ==> sent.1->request->Execute_0.connect == Some(
                endpoint@,
            )
        }),
{
}

/// What the daemon is told of a script is what the command line says: a setting
/// that is off is not mentioned, and one that is on always is.
pub proof fn law_the_daemon_is_told_the_settings(cli: Cli, script: Seq<char>, id: Seq<char>)
    ensures
        ({
            let message = request_document(RequestModel::Execute(script_of(cli, script)), id);
            &&& member_of(message, "type"@) == Some(JsonModel::Text("execute"@))
            &&& member_of(message, "id"@) == Some(JsonModel::Text(id))
            &&& member_of(message, "script"@) == Some(JsonModel::Text(script))
            &&& member_of(message, "browser"@) == Some(JsonModel::Text(cli.browser@))
            &&& member_of(message, "timeoutMs"@) == Some(
                JsonModel::Number(decimal((cli.timeout * 1_000) as nat)),
            )
            &&& cli.headless ==> member_of(message, "headless"@) == Some(JsonModel::Bool(true))
            &&& !cli.headless ==> member_of(message, "headless"@) is None
            &&& cli.ignore_https_errors ==> member_of(message, "ignoreHTTPSErrors"@) == Some(
                JsonModel::Bool(true),
            )
            &&& !cli.ignore_https_errors ==> member_of(message, "ignoreHTTPSErrors"@) is None
            &&& cli.connect is None ==> member_of(message, "connect"@) is None
            &&& cli.connect matches Some(endpoint) ==> member_of(message, "connect"@) == Some(
                JsonModel::Text(endpoint@),
            )
        }),
{
    law_requests_say_what_they_ask(RequestModel::Execute(script_of(cli, script)), id);
}

/// Every command begins with what it is there for, and only with that: the
/// runtime is installed exactly when that is asked for, help is printed only
/// without a command, and what is printed or installed follows the flags.
pub proof fn law_every_command_begins_with_its_own_action(cli: Cli, stdin_is_tty: bool)
    ensures
        ({
            let action = run_step(
                cli,
                StageModel::Started,
                EventModel::Begun { stdin_is_tty },
            ).1;
            &&& action is Install <==> cli.command == Some(Command::Install)
            &&& action is PrintGuide <==> cli.command == Some(Command::RobotDocs)
            &&& action is PrintHelp <==> cli.command is None && stdin_is_tty
            &&& action is ReadStdin <==> cli.command is None && !stdin_is_tty
            &&& action is LookForDaemon <==> (cli.command matches Some(Command::Stop { .. }))
            &&& action is EnsureDaemon <==> (cli.command matches Some(Command::Browsers { .. }))
                || (cli.command matches Some(Command::Status { .. }))
            &&& action is PrintCapabilities <==> (cli.command matches Some(
                Command::Capabilities { .. },
            ))
            &&& cli.command matches Some(Command::Capabilities { json }) ==> action == (
            ActionModel::PrintCapabilities { json })
            &&& action is InstallSkill <==> (cli.command matches Some(
                Command::InstallSkill { .. },
            ))
            &&& cli.command matches Some(Command::InstallSkill { claude, agents, codex }) ==> action
                == (ActionModel::InstallSkill { claude, agents, codex })
            &&& cli.command matches Some(Command::Run { file }) ==> action
                == ActionModel::ReadFile(file@)
            &&& action is ReadFile ==> (cli.command matches Some(Command::Run { .. }))
        }),
{
}

/// A command that needs no daemon is over once its action was performed: with
/// success if that went well, or with the error that came of it.
pub proof fn law_a_performed_command_is_over(cli: Cli, stdin_is_tty: bool, error: ErrorModel)
    requires
        match cli.command {
            Some(Command::Install) => true,
            Some(Command::InstallSkill { .. }) => true,
            Some(Command::Capabilities { .. }) => true,
            Some(Command::RobotDocs) => true,
            _ => false,
        },
    ensures
        ({
            let stage = run_step(
                cli,
                StageModel::Started,
                EventModel::Begun { stdin_is_tty },
            ).0;
            &&& run_step(cli, stage, EventModel::Performed(Ok(()))) == (
                StageModel::Over,
                ActionModel::Finish { note: None, outcome: Ok(0) },
            )
            &&& run_step(cli, stage, EventModel::Performed(Err(error))) == (
                StageModel::Over,
                ActionModel::Finish { note: None, outcome: Err(error) },
            )
        }),
{
}

/// A listing is asked for once the daemon runs, is shown as a table unless JSON
/// was asked for, and ends with the code that the daemon's answer leads to.
pub proof fn law_a_listing_is_asked_for_and_shown(
    cli: Cli,
    stdin_is_tty: bool,
    json: bool,
    code: i32,
)
    requires
        cli.command == Some(Command::Browsers { json }) || cli.command == Some(
            Command::Status { json },
        ),
    ensures
        ({
            let begun = run_step(
                cli,
                StageModel::Started,
                EventModel::Begun { stdin_is_tty },
            );
            let sent = run_step(cli, begun.0, EventModel::DaemonEnsured(Ok(())));
            let over = run_step(cli, sent.0, EventModel::Answered(Ok(code)));
            &&& sent.1 is Send
            &&& sent.1->request is Browsers <==> cli.command == Some(Command::Browsers { json })
            &&& sent.1->request is Status <==> cli.command == Some(Command::Status { json })
            &&& sent.1->mode is Json <==> json
            &&& sent.1->mode is Browsers <==> !json && sent.1->request is Browsers
            &&& sent.1->mode is Status <==> !json && sent.1->request is Status
            &&& over == (
                StageModel::Over,
                ActionModel::Finish { note: None, outcome: Ok(code) },
            )
        }),
{
}

/// A script comes from the file that is named, or else from the standard input,
/// and the command ends with the code that the daemon's answer leads to.
pub proof fn law_a_script_is_read_and_ends_with_its_code(
    cli: Cli,
    stdin_is_tty: bool,
    script: Seq<char>,
    code: i32,
)
    requires
        cli.command is None ==> !stdin_is_tty,
        cli.command matches Some(command) ==> command is Run,
    ensures
        ({
            let begun = run_step(
                cli,
                StageModel::Started,
                EventModel::Begun { stdin_is_tty },
            );
            let ready = run_step(cli, begun.0, EventModel::ScriptRead(Ok(script)));
            let sent = run_step(cli, ready.0, EventModel::DaemonEnsured(Ok(())));
            let over = run_step(cli, sent.0, EventModel::Answered(Ok(code)));
            &&& cli.command is None ==> begun.1 is ReadStdin
            &&& cli.command matches Some(Command::Run { file }) ==> begun.1
                == ActionModel::ReadFile(file@)
            &&& sent.1 is Send && sent.1->request is Execute
            &&& sent.1->request->Execute_0.script == script
            &&& over == (
                StageModel::Over,
                ActionModel::Finish { note: None, outcome: Ok(code) },
            )
        }),
{
}

/// To stop one browser asks a running daemon to stop just that one, in silence,
/// and says so if the daemon agreed; else the daemon's code is the answer.
pub proof fn law_one_browser_is_stopped_by_name(
    cli: Cli,
    stdin_is_tty: bool,
    browser: String,
    code: i32,
)
    requires
        cli.command == Some(Command::Stop { browser: Some(browser) }),
    ensures
        ({
            let begun = run_step(
                cli,
                StageModel::Started,
                EventModel::Begun { stdin_is_tty },
            );
            let sent = run_step(cli, begun.0, EventModel::DaemonFound(true));
            let over = run_step(cli, sent.0, EventModel::Answered(Ok(code)));
            &&& sent.1 == (ActionModel::Send {
                request: RequestModel::BrowserStop(browser@),
                mode: ResultMode::Silent,
            })
            &&& over.0 is Over
            &&& over.1 == (ActionModel::Finish {
                note: if code == 0 {
                    Some(
                        "Stopped browser '"@ + browser@
                            + "'. The daemon and other browsers keep running."@,
                    )
                } else {
                    None
                },
                outcome: Ok(code),
            })
        }),
{
}

/// To stop the daemon looks up its process before it is told to stop, and waits
/// for that process to exit, for ten seconds, if it agreed to stop. Without a
/// process to wait for, its word is enough; if it refuses, its code is the
/// answer.
pub proof fn law_the_daemon_is_stopped_and_waited_for(
    cli: Cli,
    stdin_is_tty: bool,
    pid: Option<i32>,
    code: i32,
)
    requires
        cli.command == Some(Command::Stop { browser: None }),
    ensures
        ({
            let begun = run_step(
                cli,
                StageModel::Started,
                EventModel::Begun { stdin_is_tty },
            );
            let found = run_step(cli, begun.0, EventModel::DaemonFound(true));
            let sent = run_step(cli, found.0, EventModel::PidFound(pid));
            let answered = run_step(cli, sent.0, EventModel::Answered(Ok(code)));
            let stopped = (
                StageModel::Over,
                ActionModel::Finish {
                    note: Some("Stopped the daemon and all managed browsers."@),
                    outcome: Ok(0),
                },
            );
            &&& found.1 is LookUpPid
            &&& sent.1 == (ActionModel::Send {
                request: RequestModel::Stop,
                mode: ResultMode::Silent,
            })
            &&& code != 0 ==> answered == (
                StageModel::Over,
                ActionModel::Finish { note: None, outcome: Ok(code) },
            )
            &&& code == 0 && pid is None ==> answered == stopped
            &&& code == 0 && pid is Some ==> {
                &&& answered.1 == (ActionModel::AwaitExit { pid: pid->0, timeout_secs: 10 })
                &&& run_step(cli, answered.0, EventModel::DaemonExited(Ok(()))) == stopped
            }
        }),
{
}

/// Only what a stage waits for takes a command further.
pub proof fn law_other_events_change_nothing(cli: Cli, stage: StageModel, event: EventModel)
    requires
        match stage {
            StageModel::Started => !(event is Begun),
            StageModel::ReadingScript => !(event is ScriptRead),
            StageModel::EnsuringDaemon { .. } => !(event is DaemonEnsured),
            StageModel::LookingForDaemon => !(event is DaemonFound),
            StageModel::LookingUpPid => !(event is PidFound),
            StageModel::Awaiting(_) => !(event is Answered),
            StageModel::AwaitingExit => !(event is DaemonExited),
            StageModel::Performing(_) => !(event is Performed),
            StageModel::Over => true,
        },
    ensures
        run_step(cli, stage, event) == (stage, ActionModel::Nothing),
{
}

/// Once a command is over, nothing more is done.
pub proof fn law_over_is_the_end(cli: Cli, event: EventModel)
    ensures
        run_step(cli, StageModel::Over, event) == (StageModel::Over, ActionModel::Nothing),
{
}

/// An action is modelled by what it is to do.
pub proof fn law_actions_are_modelled_by_what_they_do(
    text: String,
    request: Request,
    mode: ResultMode,
    pid: i32,
    timeout_secs: u64,
    outcome: Result<i32, CliError>,
)
    ensures
        RunAction::ReadFile(text)@ == ActionModel::ReadFile(text@),
        RunAction::ReadStdin@ is ReadStdin,
        RunAction::EnsureDaemon@ is EnsureDaemon,
        RunAction::LookForDaemon@ is LookForDaemon,
        RunAction::LookUpPid@ is LookUpPid,
        (RunAction::Send { request, mode })@ == (ActionModel::Send { request: request@, mode }),
        (RunAction::AwaitExit { pid, timeout_secs })@ == (ActionModel::AwaitExit {
            pid,
            timeout_secs,
        }),
        RunAction::Install@ is Install,
        RunAction::PrintGuide@ is PrintGuide,
        RunAction::PrintHelp@ is PrintHelp,
        RunAction::Nothing@ is Nothing,
        (RunAction::Finish { note: None, outcome })@ == (ActionModel::Finish {
            note: None,
            outcome: cli_outcome(outcome),
        }),
        (RunAction::Finish { note: Some(text), outcome })@ == (ActionModel::Finish {
            note: Some(text@),
            outcome: cli_outcome(outcome),
        }),
{
}

/// What came of an action is modelled by what was found.
pub proof fn law_events_are_modelled_by_what_was_found(
    stdin_is_tty: bool,
    script: Result<String, CliError>,
    done: Result<(), CliError>,
    found: bool,
    pid: Option<i32>,
    outcome: Result<i32, CliError>,
)
    ensures
        (RunEvent::Begun { stdin_is_tty })@ == (EventModel::Begun { stdin_is_tty }),
        script matches Ok(text) ==> RunEvent::ScriptRead(script)@ == EventModel::ScriptRead(
            Ok(text@),
        ),
        script matches Err(error) ==> RunEvent::ScriptRead(script)@ == EventModel::ScriptRead(
            Err(error@),
        ),
        RunEvent::DaemonEnsured(done)@ == EventModel::DaemonEnsured(cli_outcome(done)),
        RunEvent::DaemonFound(found)@ == EventModel::DaemonFound(found),
        RunEvent::PidFound(pid)@ == EventModel::PidFound(pid),
        RunEvent::Answered(outcome)@ == EventModel::Answered(cli_outcome(outcome)),
        RunEvent::DaemonExited(done)@ == EventModel::DaemonExited(cli_outcome(done)),
        RunEvent::Performed(done)@ == EventModel::Performed(cli_outcome(done)),
{
}

/// A stage is modelled by what it waits for and what is still to be done.
pub proof fn law_stages_are_modelled_by_what_they_wait_for(
    request: Request,
    mode: ResultMode,
    browser: String,
    pid: Option<i32>,
    code: ExitCode,
)
    ensures
        RunStage::Started@ is Started,
        RunStage::ReadingScript@ is ReadingScript,
        (RunStage::EnsuringDaemon { request, mode })@ == (StageModel::EnsuringDaemon {
            request: request@,
            mode,
        }),
        RunStage::LookingForDaemon@ is LookingForDaemon,
        RunStage::LookingUpPid@ is LookingUpPid,
        RunStage::Awaiting(Afterwards::Finish)@ == StageModel::Awaiting(AfterwardsModel::Finish),
        RunStage::Awaiting(Afterwards::BrowserStopped(browser))@ == StageModel::Awaiting(
            AfterwardsModel::BrowserStopped(browser@),
        ),
        RunStage::Awaiting(Afterwards::DaemonStopped(pid))@ == StageModel::Awaiting(
            AfterwardsModel::DaemonStopped(pid),
        ),
        RunStage::AwaitingExit@ is AwaitingExit,
        RunStage::Performing(code)@ == StageModel::Performing(code),
        RunStage::Over@ is Over,
{
}

} // verus!
