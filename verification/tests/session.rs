use dev_browser::exit_code::{classify_error_exit_code, CliError, ExitCode, ToolEnvironmentError};
use dev_browser::request::{
    request_id, request_line, request_message, Request, ScriptRequest,
};
use dev_browser::response::ResultMode;
use dev_browser::session::{
    run, run_script, Afterwards, Cli, Command, RunAction, RunEvent, RunStage, STOP_TIMEOUT_SECS,
};
use serde_json::Value;

fn cli(command: Option<Command>) -> Cli {
    Cli {
        browser: "default".to_string(),
        connect: None,
        headless: false,
        ignore_https_errors: false,
        timeout: 30,
        command,
    }
}

fn begin(cli: &Cli, stdin_is_tty: bool) -> (RunStage, RunAction) {
    run(cli, RunStage::Started, RunEvent::Begun { stdin_is_tty })
}

fn failure() -> CliError {
    CliError::Other("no".to_string())
}

fn code(action: RunAction) -> i32 {
    match action {
        RunAction::Finish { outcome: Ok(code), .. } => code,
        _ => panic!("expected the end"),
    }
}

fn note(action: RunAction) -> Option<String> {
    match action {
        RunAction::Finish { note, .. } => note,
        _ => panic!("expected the end"),
    }
}

#[test]
fn classify_error_exit_code_flags_tool_environment_errors() {
    let error = CliError::ToolEnvironment(ToolEnvironmentError("boom".to_string()));
    assert_eq!(classify_error_exit_code(&error), ExitCode::ToolEnvironment.code());
}

#[test]
fn classify_error_exit_code_defaults_to_generic() {
    let error = CliError::Other("boom".to_string());
    assert_eq!(classify_error_exit_code(&error), ExitCode::GenericError.code());
}

#[test]
fn json_errors_are_generic() {
    let error = serde_json::from_str::<Value>("{").unwrap_err();
    let words = error.to_string();
    let error = CliError::Json(error);
    assert_eq!(classify_error_exit_code(&error), 1);
    assert_eq!(error.to_string(), words);
    assert_eq!(failure().to_string(), "no");
    let environment = CliError::ToolEnvironment(ToolEnvironmentError("boom".to_string()));
    assert_eq!(environment.to_string(), "boom");
}

#[test]
fn exit_codes_have_names_and_meanings() {
    let dictionary = ExitCode::dictionary();
    assert_eq!(dictionary[0], (0, "success", "The command completed successfully."));
    assert_eq!(dictionary[4].0, ExitCode::Upstream.code());
    assert_eq!(dictionary[4].1, ExitCode::Upstream.label());
    assert_eq!(dictionary[2].2, ExitCode::Usage.description());
    assert_eq!(dictionary[1].1, "generic-error");
}

#[test]
fn a_script_file_is_run() {
    let cli = cli(Some(Command::Run { file: "a.js".to_string() }));
    let (stage, action) = begin(&cli, true);
    assert!(matches!(action, RunAction::ReadFile(file) if file == "a.js"));
    let (stage, action) = run(&cli, stage, RunEvent::ScriptRead(Ok("x".to_string())));
    assert!(matches!(action, RunAction::EnsureDaemon));
    let (stage, action) = run(&cli, stage, RunEvent::DaemonEnsured(Ok(())));
    match action {
        RunAction::Send { request: Request::Execute(script), mode } => {
            assert_eq!(script.script, "x");
            assert_eq!(script.timeout_ms, 30_000);
            assert_eq!(mode, ResultMode::Json);
        }
        _ => panic!("expected the script to be sent"),
    }
    let (stage, action) = run(&cli, stage, RunEvent::Answered(Ok(4)));
    assert_eq!(code(action), 4);
    let (stage, action) = run(&cli, stage, RunEvent::Answered(Ok(0)));
    assert!(matches!((stage, action), (RunStage::Over, RunAction::Nothing)));
}

#[test]
fn a_bare_call_reads_a_script_or_prints_the_help() {
    let cli = cli(None);
    let (stage, action) = begin(&cli, false);
    assert!(matches!((stage, action), (RunStage::ReadingScript, RunAction::ReadStdin)));
    let (stage, action) = begin(&cli, true);
    assert!(matches!(action, RunAction::PrintHelp));
    let (_, action) = run(&cli, stage, RunEvent::Performed(Ok(())));
    assert_eq!(code(action), 2);
}

#[test]
fn lists_are_shown_as_asked_for() {
    for (command, expected) in [
        (Command::Browsers { json: false }, ResultMode::Browsers),
        (Command::Browsers { json: true }, ResultMode::Json),
        (Command::Status { json: false }, ResultMode::Status),
        (Command::Status { json: true }, ResultMode::Json),
    ] {
        let cli = cli(Some(command));
        let (stage, action) = begin(&cli, true);
        assert!(matches!(action, RunAction::EnsureDaemon));
        let (_, action) = run(&cli, stage, RunEvent::DaemonEnsured(Ok(())));
        match action {
            RunAction::Send { mode, .. } => assert_eq!(mode, expected),
            _ => panic!("expected a request"),
        }
    }
}

#[test]
fn commands_without_a_daemon_succeed_when_performed() {
    for command in [
        Command::Install,
        Command::InstallSkill { claude: true, agents: false, codex: true },
        Command::Capabilities { json: true },
        Command::RobotDocs,
    ] {
        let cli = cli(Some(command));
        let (stage, _) = begin(&cli, false);
        let (_, action) = run(&cli, stage, RunEvent::Performed(Ok(())));
        assert_eq!(code(action), 0);
    }
    let cli = cli(Some(Command::InstallSkill { claude: true, agents: false, codex: true }));
    assert!(matches!(
        begin(&cli, false).1,
        RunAction::InstallSkill { claude: true, agents: false, codex: true }
    ));
}

#[test]
fn stopping_the_daemon_waits_for_it() {
    let cli = cli(Some(Command::Stop { browser: None }));
    let (stage, action) = begin(&cli, false);
    assert!(matches!(action, RunAction::LookForDaemon));
    let (stage, _) = run(&cli, stage, RunEvent::DaemonFound(true));
    let (stage, _) = run(&cli, stage, RunEvent::PidFound(Some(9)));
    let (stage, action) = run(&cli, stage, RunEvent::Answered(Ok(0)));
    match action {
        RunAction::AwaitExit { pid, timeout_secs } => {
            assert_eq!((pid, timeout_secs), (9, STOP_TIMEOUT_SECS));
            assert_eq!(timeout_secs, 10);
        }
        _ => panic!("expected to wait"),
    }
    let (_, action) = run(&cli, stage, RunEvent::DaemonExited(Ok(())));
    assert_eq!(note(action).as_deref(), Some("Stopped the daemon and all managed browsers."));
}

#[test]
fn stopping_the_daemon_without_a_pid_does_not_wait() {
    let cli = cli(Some(Command::Stop { browser: None }));
    let stage = RunStage::Awaiting(Afterwards::DaemonStopped(None));
    let (_, action) = run(&cli, stage, RunEvent::Answered(Ok(0)));
    assert_eq!(note(action).as_deref(), Some("Stopped the daemon and all managed browsers."));
    let stage = RunStage::Awaiting(Afterwards::DaemonStopped(Some(9)));
    let (_, action) = run(&cli, stage, RunEvent::Answered(Ok(4)));
    match action {
        RunAction::Finish { note, outcome } => {
            assert!(note.is_none());
            assert_eq!(outcome.unwrap(), 4);
        }
        _ => panic!("expected the end"),
    }
}

#[test]
fn stopping_one_browser_spares_the_daemon() {
    let cli = cli(Some(Command::Stop { browser: Some("mine".to_string()) }));
    let (stage, _) = begin(&cli, false);
    let (stage, action) = run(&cli, stage, RunEvent::DaemonFound(true));
    assert!(matches!(
        action,
        RunAction::Send { request: Request::BrowserStop(name), mode: ResultMode::Silent }
            if name == "mine"
    ));
    let (_, action) = run(&cli, stage, RunEvent::Answered(Ok(0)));
    assert_eq!(
        note(action).as_deref(),
        Some("Stopped browser 'mine'. The daemon and other browsers keep running.")
    );
    let stage = RunStage::Awaiting(Afterwards::BrowserStopped("mine".to_string()));
    let (_, action) = run(&cli, stage, RunEvent::Answered(Ok(4)));
    assert!(note(action).is_none());
}

#[test]
fn stopping_nothing_succeeds() {
    for browser in [None, Some("mine".to_string())] {
        let cli = cli(Some(Command::Stop { browser }));
        let (_, action) = run(&cli, RunStage::LookingForDaemon, RunEvent::DaemonFound(false));
        match action {
            RunAction::Finish { note, outcome } => {
                assert_eq!(note.as_deref(), Some("Daemon is not running."));
                assert_eq!(outcome.unwrap(), 0);
            }
            _ => panic!("expected the end"),
        }
    }
}

#[test]
fn errors_end_a_command() {
    let cli = cli(None);
    let request = Request::Status;
    let stages = vec![
        (RunStage::ReadingScript, RunEvent::ScriptRead(Err(failure()))),
        (
            RunStage::EnsuringDaemon { request, mode: ResultMode::Json },
            RunEvent::DaemonEnsured(Err(failure())),
        ),
        (RunStage::Awaiting(Afterwards::Finish), RunEvent::Answered(Err(failure()))),
        (RunStage::AwaitingExit, RunEvent::DaemonExited(Err(failure()))),
        (RunStage::Performing(ExitCode::Success), RunEvent::Performed(Err(failure()))),
    ];
    for (stage, event) in stages {
        match run(&cli, stage, event) {
            (RunStage::Over, RunAction::Finish { note: None, outcome: Err(error) }) => {
                assert_eq!(error.to_string(), "no")
            }
            _ => panic!("expected the error"),
        }
    }
}

#[test]
fn events_out_of_turn_change_nothing() {
    let cli = cli(None);
    let (stage, action) = run(&cli, RunStage::AwaitingExit, RunEvent::PidFound(Some(1)));
    assert!(matches!((stage, action), (RunStage::AwaitingExit, RunAction::Nothing)));
}

#[test]
fn a_script_takes_its_settings_along() {
    let mut cli = cli(None);
    cli.timeout = u32::MAX;
    cli.headless = true;
    cli.ignore_https_errors = true;
    cli.connect = Some("auto".to_string());
    let request = run_script(&cli, "1".to_string());
    assert_eq!(request.timeout_ms, 4_294_967_295_000);
    let message = request_message(&Request::Execute(request), "execute-1-2");
    assert_eq!(message["id"].as_str(), Some("execute-1-2"));
    assert_eq!(message["type"].as_str(), Some("execute"));
    assert_eq!(message["browser"].as_str(), Some("default"));
    assert_eq!(message["script"].as_str(), Some("1"));
    assert_eq!(message["timeoutMs"].as_u64(), Some(4_294_967_295_000));
    assert_eq!(message["headless"].as_bool(), Some(true));
    assert_eq!(message["ignoreHTTPSErrors"].as_bool(), Some(true));
    assert_eq!(message["connect"].as_str(), Some("auto"));
    assert_eq!(message.as_object().unwrap().len(), 8);
}

#[test]
fn what_is_off_is_left_out_of_a_request() {
    let script = run_script(&cli(None), String::new());
    let message = request_message(&Request::Execute(script), "x");
    assert_eq!(message.as_object().unwrap().len(), 5);
    assert!(message.get("headless").is_none());
    assert!(message.get("ignoreHTTPSErrors").is_none());
    assert!(message.get("connect").is_none());
}

#[test]
fn requests_say_what_they_ask() {
    for (request, word, members) in [
        (Request::Browsers, "browsers", 2),
        (Request::Status, "status", 2),
        (Request::BrowserStop("b".to_string()), "browser-stop", 3),
        (Request::Stop, "stop", 2),
    ] {
        let message = request_message(&request, "id");
        assert_eq!(message["type"].as_str(), Some(word));
        assert_eq!(message.as_object().unwrap().len(), members);
    }
    let message = request_message(&Request::BrowserStop("b".to_string()), "id");
    assert_eq!(message["browser"].as_str(), Some("b"));
}

#[test]
fn request_lines_read_back() {
    let script = ScriptRequest {
        browser: "b\"\\".to_string(),
        script: "line 1\nline 2\r\n\t\u{1f600}".to_string(),
        timeout_ms: 1,
        headless: false,
        ignore_https_errors: true,
        connect: Some("ws://h".to_string()),
    };
    let request = Request::Execute(script);
    let line = request_line(&request, 1_700_000_000_000, 42).unwrap();
    assert_eq!(line.matches('\n').count(), 1);
    assert!(line.ends_with('\n'));
    let read: Value = serde_json::from_str(line.trim_end()).unwrap();
    assert_eq!(read, request_message(&request, "execute-1700000000000-42"));
    assert_eq!(
        request_line(&Request::Stop, 5, 6).unwrap(),
        "{\"id\":\"stop-5-6\",\"type\":\"stop\"}\n"
    );
}

#[test]
fn request_ids_are_made_of_time_and_process() {
    assert_eq!(request_id("execute", 0, 0), "execute-0-0");
    assert_eq!(
        request_id("stop", u128::MAX, u32::MAX),
        "stop-340282366920938463463374607431768211455-4294967295"
    );
}
