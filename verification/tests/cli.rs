use clap::builder::RangedI64ValueParser;
use clap::{Arg, ArgAction, ArgMatches};
use dev_browser::cli::{
    capabilities_document, known_subcommand_names, parse_connect_value, print_capabilities,
};
use dev_browser::request::{Request, DEFAULT_SCRIPT_TIMEOUT_SECS};
use dev_browser::response::ResultMode;
use dev_browser::session::{run, Cli, Command, RunAction, RunEvent, RunStage};

const VERSION: &str = "0.2.8";

fn flag(name: &'static str) -> Arg {
    Arg::new(name).long(name).action(ArgAction::SetTrue)
}

fn arguments() -> clap::Command {
    let json = || flag("json");
    clap::Command::new("dev-browser")
        .arg(Arg::new("browser").long("browser").default_value("default"))
        .arg(
            Arg::new("connect")
                .long("connect")
                .num_args(0..=1)
                .default_missing_value("auto")
                .value_parser(parse_connect_value),
        )
        .arg(flag("headless"))
        .arg(flag("ignore-https-errors"))
        .arg(
            Arg::new("timeout")
                .long("timeout")
                .value_parser(RangedI64ValueParser::<u32>::new().range(1..)),
        )
        .subcommand(clap::Command::new("run").arg(Arg::new("file").required(true)))
        .subcommand(clap::Command::new("install"))
        .subcommand(clap::Command::new("install-skill").arg(flag("agents")).arg(flag("codex")))
        .subcommand(clap::Command::new("browsers").arg(json()))
        .subcommand(clap::Command::new("status").arg(json()))
        .subcommand(clap::Command::new("stop").arg(Arg::new("browser").long("browser")))
        .subcommand(clap::Command::new("capabilities").arg(json()))
        .subcommand(clap::Command::new("robot-docs"))
}

fn command_in(matches: &ArgMatches) -> Option<Command> {
    matches.subcommand().map(|(name, matches)| match name {
        "run" => Command::Run { file: matches.get_one::<String>("file").unwrap().clone() },
        "install" => Command::Install,
        "install-skill" => Command::InstallSkill {
            claude: false,
            agents: matches.get_flag("agents"),
            codex: matches.get_flag("codex"),
        },
        "browsers" => Command::Browsers { json: matches.get_flag("json") },
        "status" => Command::Status { json: matches.get_flag("json") },
        "stop" => Command::Stop { browser: matches.get_one::<String>("browser").cloned() },
        "capabilities" => Command::Capabilities { json: matches.get_flag("json") },
        "robot-docs" => Command::RobotDocs,
        _ => unreachable!(),
    })
}

fn try_parse_from<const N: usize>(args: [&str; N]) -> Result<Cli, clap::Error> {
    let matches = arguments().try_get_matches_from(args)?;
    Ok(Cli {
        browser: matches.get_one::<String>("browser").unwrap().clone(),
        connect: matches.get_one::<String>("connect").cloned(),
        headless: matches.get_flag("headless"),
        ignore_https_errors: matches.get_flag("ignore-https-errors"),
        timeout: matches
            .get_one::<u32>("timeout")
            .copied()
            .unwrap_or(DEFAULT_SCRIPT_TIMEOUT_SECS),
        command: command_in(&matches),
    })
}

fn first_action(cli: &Cli) -> RunAction {
    run(cli, RunStage::Started, RunEvent::Begun { stdin_is_tty: false }).1
}

// How the answer to a request for a list is shown.
fn listing_mode(cli: &Cli) -> ResultMode {
    let (stage, _) = run(cli, RunStage::Started, RunEvent::Begun { stdin_is_tty: false });
    match run(cli, stage, RunEvent::DaemonEnsured(Ok(()))).1 {
        RunAction::Send { mode, .. } => mode,
        _ => panic!("expected a request"),
    }
}

#[test]
fn status_json_flag_parses() {
    let cli = try_parse_from(["dev-browser", "status", "--json"]).unwrap();
    match cli.command {
        Some(Command::Status { json }) => assert!(json),
        _ => panic!("expected Status command"),
    }
    assert_eq!(listing_mode(&cli), ResultMode::Json);
}

#[test]
fn status_without_json_flag_defaults_false() {
    let cli = try_parse_from(["dev-browser", "status"]).unwrap();
    match cli.command {
        Some(Command::Status { json }) => assert!(!json),
        _ => panic!("expected Status command"),
    }
    assert_eq!(listing_mode(&cli), ResultMode::Status);
}

#[test]
fn browsers_json_flag_parses() {
    let cli = try_parse_from(["dev-browser", "browsers", "--json"]).unwrap();
    match cli.command {
        Some(Command::Browsers { json }) => assert!(json),
        _ => panic!("expected Browsers command"),
    }
    assert_eq!(listing_mode(&cli), ResultMode::Json);
}

#[test]
fn browsers_without_json_flag_defaults_false() {
    let cli = try_parse_from(["dev-browser", "browsers"]).unwrap();
    match cli.command {
        Some(Command::Browsers { json }) => assert!(!json),
        _ => panic!("expected Browsers command"),
    }
    assert_eq!(listing_mode(&cli), ResultMode::Browsers);
}

#[test]
fn stop_without_browser_flag_targets_whole_daemon() {
    let cli = try_parse_from(["dev-browser", "stop"]).unwrap();
    match &cli.command {
        Some(Command::Stop { browser }) => assert!(browser.is_none()),
        _ => panic!("expected Stop command"),
    }
    let (stage, action) = run(&cli, RunStage::LookingForDaemon, RunEvent::DaemonFound(true));
    assert!(matches!(action, RunAction::LookUpPid));
    let (_, action) = run(&cli, stage, RunEvent::PidFound(None));
    assert!(matches!(
        action,
        RunAction::Send { request: Request::Stop, mode: ResultMode::Silent }
    ));
}

#[test]
fn stop_with_browser_flag_targets_named_instance() {
    let cli = try_parse_from(["dev-browser", "stop", "--browser", "myproj"]).unwrap();
    match &cli.command {
        Some(Command::Stop { browser }) => assert_eq!(browser.as_deref(), Some("myproj")),
        _ => panic!("expected Stop command"),
    }
    let (_, action) = run(&cli, RunStage::LookingForDaemon, RunEvent::DaemonFound(true));
    match action {
        RunAction::Send { request: Request::BrowserStop(name), .. } => assert_eq!(name, "myproj"),
        _ => panic!("expected a request to stop the browser"),
    }
}

#[test]
fn capabilities_subcommand_parses_with_and_without_json() {
    let cli = try_parse_from(["dev-browser", "capabilities"]).unwrap();
    match cli.command {
        Some(Command::Capabilities { json }) => assert!(!json),
        _ => panic!("expected Capabilities command"),
    }
    assert!(matches!(first_action(&cli), RunAction::PrintCapabilities { json: false }));

    let cli = try_parse_from(["dev-browser", "capabilities", "--json"]).unwrap();
    match cli.command {
        Some(Command::Capabilities { json }) => assert!(json),
        _ => panic!("expected Capabilities command"),
    }
    assert!(matches!(first_action(&cli), RunAction::PrintCapabilities { json: true }));
}

#[test]
fn capabilities_document_lists_all_known_commands() {
    let document = capabilities_document(VERSION);
    assert_eq!(document["version"].as_str(), Some(VERSION));

    let commands: Vec<&str> = document["commands"]
        .as_array()
        .expect("commands should be an array")
        .iter()
        .map(|entry| entry["name"].as_str().expect("command name"))
        .collect();

    for expected in known_subcommand_names() {
        assert!(
            commands.contains(&expected),
            "capabilities document is missing command '{expected}'"
        );
    }
}

#[test]
fn capabilities_document_exit_code_dictionary_is_0_through_4() {
    let document = capabilities_document(VERSION);
    let codes: Vec<i64> = document["exit_codes"]
        .as_array()
        .expect("exit_codes should be an array")
        .iter()
        .map(|entry| entry["code"].as_i64().expect("exit code"))
        .collect();

    assert_eq!(codes, vec![0, 1, 2, 3, 4]);
}

#[test]
fn connect_rejects_subcommand_name_as_url() {
    let err = try_parse_from(["dev-browser", "--connect", "run"])
        .err()
        .expect("`--connect run` should be rejected, not silently swallowed");
    let message = err.to_string();
    assert!(
        message.contains("looks like a dev-browser subcommand"),
        "unexpected error message: {message}"
    );
}

#[test]
fn connect_accepts_a_real_url() {
    let cli = try_parse_from(["dev-browser", "--connect", "http://localhost:9222"]).unwrap();
    assert_eq!(cli.connect.as_deref(), Some("http://localhost:9222"));
}

#[test]
fn connect_accepts_bare_form_as_auto() {
    let cli = try_parse_from(["dev-browser", "--connect"]).unwrap();
    assert_eq!(cli.connect.as_deref(), Some("auto"));
}

#[test]
fn connect_with_explicit_equals_still_routes_to_subcommand() {
    let cli = try_parse_from(["dev-browser", "--connect=auto", "run", "script.js"]).unwrap();
    assert_eq!(cli.connect.as_deref(), Some("auto"));
    match &cli.command {
        Some(Command::Run { file }) => assert_eq!(file, "script.js"),
        _ => panic!("expected Run command"),
    }
    match first_action(&cli) {
        RunAction::ReadFile(file) => assert_eq!(file, "script.js"),
        _ => panic!("expected the script to be read"),
    }
}

#[test]
fn robot_docs_subcommand_parses() {
    let cli = try_parse_from(["dev-browser", "robot-docs"]).unwrap();
    assert!(matches!(cli.command, Some(Command::RobotDocs)));
    assert!(matches!(first_action(&cli), RunAction::PrintGuide));
}

#[test]
fn connect_rejects_robot_docs_subcommand_name_as_url() {
    let err = try_parse_from(["dev-browser", "--connect", "robot-docs"])
        .err()
        .expect("`--connect robot-docs` should be rejected");
    assert!(err.to_string().contains("looks like a dev-browser subcommand"));
}

#[test]
fn every_command_is_refused_as_an_endpoint() {
    for name in known_subcommand_names() {
        assert!(parse_connect_value(name).is_err());
        assert_eq!(parse_connect_value(&format!("{name}/")), Ok(format!("{name}/")));
    }
    assert_eq!(
        parse_connect_value("stop").unwrap_err(),
        "'stop' looks like a dev-browser subcommand, not a CDP URL. `--connect` greedily takes the next word as its value. Use `--connect=auto stop` (with an `=`) to auto-connect and still invoke the `stop` subcommand, or `--connect=<url>` to specify a CDP endpoint explicitly."
    );
    assert_eq!(parse_connect_value("auto"), Ok("auto".to_string()));
    assert_eq!(parse_connect_value(""), Ok(String::new()));
    assert_eq!(parse_connect_value("Run"), Ok("Run".to_string()));
}

#[test]
fn capabilities_are_shown_to_humans() {
    let lines = print_capabilities("1.2.3", false).unwrap();
    assert_eq!(
        lines,
        vec![
            "dev-browser 1.2.3",
            "contract_version: 1",
            "",
            "Commands:",
            "  run              Run a script file against the browser",
            "  install          Install Playwright browsers (Chromium) and verify Chromium actually launches",
            "  install-skill    Install the dev-browser skill into agent skill directories",
            "  browsers         List all managed browser instances",
            "  status           Show daemon status",
            "  stop             Stop the daemon and all browsers, or one named browser with --browser <NAME>",
            "  capabilities     Print this machine-readable capabilities document",
            "  robot-docs       Print the full agent usage guide to stdout",
            "",
            "Exit codes:",
            "  0  success",
            "  1  generic-error",
            "  2  usage-error",
            "  3  tool-environment-error",
            "  4  upstream-failure",
            "",
            "Run `dev-browser capabilities --json` for the full machine-readable document.",
        ]
    );
}

#[test]
fn capabilities_are_a_json_document() {
    let lines = print_capabilities("1.2.3", true).unwrap();
    assert_eq!(lines.len(), 1);
    let document: serde_json::Value = serde_json::from_str(&lines[0]).unwrap();
    assert_eq!(document, capabilities_document("1.2.3"));
    assert_eq!(document["contract_version"].as_u64(), Some(1));
    assert_eq!(document["commands"][3]["json_flag"].as_bool(), Some(true));
    assert!(document["commands"][0].get("json_flag").is_none());
    assert_eq!(document["exit_codes"][3]["name"].as_str(), Some("tool-environment-error"));
    assert_eq!(document["env_vars"][0]["name"].as_str(), Some("DEV_BROWSER_DAEMON"));
    assert_eq!(document["env_vars"].as_array().unwrap().len(), 1);
    assert_eq!(document["flags"].as_object().unwrap().len(), 4);
    assert_eq!(
        document["flags"]["--version / -V"].as_str(),
        Some("Print the installed CLI version and exit.")
    );
    assert_eq!(document.as_object().unwrap().len(), 6);
}
