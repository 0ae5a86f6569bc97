use dev_browser::daemon::{
    browsers_dir, command_from_entry, current_daemon_pid, daemon_base_dir, daemon_base_dir_in,
    daemon_has_exited, daemon_log_path, daemon_log_path_display, daemon_log_path_display_in,
    daemon_log_path_in,
    daemon_logs_dir, daemon_logs_dir_in, dependency_installed, embedded_command, embedded_path,
    embedded_runtime_installed, ensure_daemon_extracted, entry_kind, find_daemon_command,
    find_tsx_cli, is_daemon_running, open_daemon_log_file, pid_is_running, pid_path,
    probe_by_exit_code, spawn_lock_path, sync_text_file, tmp_dir, DaemonSource, EmbeddedFile,
    EntryKind, ExistingFile, OpenedProcess, SignalProbe, DAEMON_LOG_MAX_BYTES, STILL_ACTIVE,
};
use dev_browser::exit_code::{CliError, IoErrorKind};
use dev_browser::paths::FilePath;

const DEV_BROWSER_DIR: &str = ".dev-browser";

const ALIVE: SignalProbe = SignalProbe::Delivered;
const FOREIGN: SignalProbe = SignalProbe::NotPermitted;
const GONE: SignalProbe = SignalProbe::NoSuchProcess;

fn name_of(path: &FilePath) -> String {
    String::from_utf8(path.file_name().unwrap()).unwrap()
}

#[test]
fn daemon_has_exited_false_for_a_live_pid_even_if_socket_unreachable() {
    let live_pid: i32 = 4242;
    assert!(!daemon_has_exited(live_pid, true, ALIVE));
}

#[test]
fn daemon_has_exited_false_while_socket_is_still_reachable() {
    assert!(!daemon_has_exited(i32::MAX, false, GONE));
}

#[test]
fn daemon_has_exited_true_when_socket_unreachable_and_pid_gone() {
    assert!(daemon_has_exited(i32::MAX, true, GONE));
}

#[test]
fn pid_is_running_true_for_own_process() {
    assert!(pid_is_running(4242, ALIVE));
}

#[test]
fn pid_is_running_false_for_non_positive_pid() {
    assert!(!pid_is_running(0, ALIVE));
    assert!(!pid_is_running(-1, ALIVE));
}

#[test]
fn daemon_log_path_is_under_dev_browser_logs_dir() {
    let path = daemon_log_path().expect("home dir should resolve in the test environment");
    assert_eq!(name_of(&path), "daemon.log");

    let parent = path.parent().expect("daemon.log should have a parent dir");
    assert_eq!(name_of(&parent), "logs");

    let grandparent = parent.parent().expect("logs dir should have a parent dir");
    assert_eq!(name_of(&grandparent), DEV_BROWSER_DIR);
}

#[test]
fn daemon_log_path_display_never_panics_and_mentions_daemon_log() {
    let display = daemon_log_path_display();
    assert!(display.ends_with("daemon.log"));
}

#[test]
fn both_signs_are_needed_to_call_a_daemon_gone() {
    assert!(!daemon_has_exited(7, false, ALIVE));
    assert!(!daemon_has_exited(7, true, ALIVE));
    assert!(!daemon_has_exited(7, false, GONE));
    assert!(daemon_has_exited(7, true, GONE));
    assert!(daemon_has_exited(0, true, ALIVE));
}

#[test]
fn a_process_of_somebody_else_is_alive() {
    assert!(pid_is_running(7, FOREIGN));
    assert!(!daemon_has_exited(7, true, FOREIGN));
    assert!(!pid_is_running(0, FOREIGN));
}

#[test]
fn windows_processes_are_judged_by_their_exit_code() {
    assert_eq!(STILL_ACTIVE, 259);
    assert_eq!(probe_by_exit_code(OpenedProcess::ExitCode(259)), SignalProbe::Delivered);
    assert_eq!(probe_by_exit_code(OpenedProcess::ExitCode(0)), SignalProbe::NoSuchProcess);
    assert_eq!(probe_by_exit_code(OpenedProcess::AccessDenied), SignalProbe::NotPermitted);
    assert_eq!(probe_by_exit_code(OpenedProcess::NotFound), SignalProbe::NoSuchProcess);
}

#[test]
fn the_daemon_runs_if_it_can_be_connected_to() {
    assert!(is_daemon_running(&Ok(())));
    assert!(!is_daemon_running(&Err("refused".to_string())));
}

#[test]
fn pid_files_are_read_leniently() {
    assert_eq!(current_daemon_pid(Some("123\n")), Some(123));
    assert_eq!(current_daemon_pid(Some(" +5 ")), Some(5));
    assert_eq!(current_daemon_pid(Some("-5")), Some(-5));
    assert_eq!(current_daemon_pid(Some("-2147483648")), Some(i32::MIN));
    assert_eq!(current_daemon_pid(Some("2147483647")), Some(i32::MAX));
    assert_eq!(current_daemon_pid(Some("2147483648")), None);
    assert_eq!(current_daemon_pid(Some("12a")), None);
    assert_eq!(current_daemon_pid(Some("")), None);
    assert_eq!(current_daemon_pid(Some("-")), None);
    assert_eq!(current_daemon_pid(None), None);
}

#[test]
fn files_are_under_the_base_directory() {
    let home = || Some(FilePath::new("/home/user"));
    let base = daemon_base_dir_in(home()).unwrap();
    assert_eq!(base.display(), "/home/user/.dev-browser");
    assert_eq!(tmp_dir(&base).display(), "/home/user/.dev-browser/tmp");
    assert_eq!(browsers_dir(&base).display(), "/home/user/.dev-browser/browsers");
    assert_eq!(pid_path(&base).display(), "/home/user/.dev-browser/daemon.pid");
    assert_eq!(spawn_lock_path(&base).display(), "/home/user/.dev-browser/daemon-spawn.lock");
    assert_eq!(daemon_logs_dir_in(home()).unwrap().display(), "/home/user/.dev-browser/logs");
    assert_eq!(
        daemon_log_path_in(home()).unwrap().display(),
        "/home/user/.dev-browser/logs/daemon.log"
    );
}

#[test]
fn without_a_home_directory_there_are_no_files() {
    assert_eq!(
        daemon_base_dir_in(None).unwrap_err().to_string(),
        "Could not determine the home directory for the embedded daemon runtime."
    );
    let message = "Could not determine the home directory for daemon logs.";
    for error in [daemon_logs_dir_in(None).unwrap_err(), daemon_log_path_in(None).unwrap_err()] {
        assert_eq!(error.kind, IoErrorKind::NotFound);
        assert_eq!(error.to_string(), message);
    }
    assert_eq!(daemon_log_path_display_in(None), "~/.dev-browser/logs/daemon.log");
    assert_eq!(
        daemon_log_path_display_in(Some(FilePath::new("/h\u{e9}"))),
        "/h\u{e9}/.dev-browser/logs/daemon.log"
    );
    for bytes in [vec![255], vec![0xe2, 0x82], vec![47, 0xf0, 0x9f], vec![0xc3], vec![0xed, 0xa0]] {
        let text = daemon_log_path_display_in(Some(FilePath { bytes }));
        assert!(text.ends_with("/daemon.log"), "{text}");
    }
}

#[test]
fn the_real_home_directory_is_used() {
    if let (Ok(base), Ok(logs)) = (daemon_base_dir(), daemon_logs_dir()) {
        assert_eq!(logs.display(), base.join("logs").display());
        let home = dirs::home_dir().unwrap();
        assert_eq!(base.display(), home.join(".dev-browser").display().to_string());
    }
}

#[test]
fn long_logs_are_moved_aside() {
    let logs = FilePath::new("/logs");
    let plan = open_daemon_log_file(&logs, None);
    assert_eq!(plan.path.display(), "/logs/daemon.log");
    assert!(plan.rotate_to.is_none());
    assert_eq!(DAEMON_LOG_MAX_BYTES, 5 * 1024 * 1024);
    assert!(open_daemon_log_file(&logs, Some(DAEMON_LOG_MAX_BYTES)).rotate_to.is_none());
    let rotated = open_daemon_log_file(&logs, Some(DAEMON_LOG_MAX_BYTES + 1));
    assert_eq!(rotated.rotate_to.unwrap().display(), "/logs/daemon.log.1");
}

#[test]
fn the_environment_overrides_the_embedded_daemon() {
    assert!(matches!(find_daemon_command(None), DaemonSource::Embedded));
    match find_daemon_command(Some(FilePath::new("/d.ts"))) {
        DaemonSource::Entry(path) => assert_eq!(path.display(), "/d.ts"),
        DaemonSource::Embedded => panic!("expected the entrypoint"),
    }
}

#[test]
fn the_embedded_daemon_is_run_by_node() {
    let base = FilePath::new("/b");
    let command = embedded_command(&base.join("daemon.mjs"), &base);
    assert_eq!(command.program, "node");
    assert_eq!(command.args, vec!["/b/daemon.mjs".to_string()]);
    assert_eq!(command.current_dir.display(), "/b");
    assert!(command.requires_runtime_install);
}

#[test]
fn extensions_decide_how_an_entrypoint_is_run() {
    for (entry, kind) in [
        ("/d/a.js", EntryKind::Script),
        ("/d/a.mjs", EntryKind::Script),
        ("/d/a.cjs", EntryKind::Script),
        ("/d/a.ts", EntryKind::TypeScript),
        ("/d/a.b.mts", EntryKind::TypeScript),
        ("/d/a.cts", EntryKind::TypeScript),
        ("/d/a.JS", EntryKind::Program),
        ("/d/.js", EntryKind::Program),
        ("/d/js", EntryKind::Program),
        ("/d/a.", EntryKind::Program),
    ] {
        assert_eq!(entry_kind(&FilePath::new(entry)), kind, "{entry}");
    }
}

#[test]
fn entrypoints_become_commands() {
    let nothing = |_: &FilePath| false;
    let script = command_from_entry(&FilePath::new("/d/a.mjs"), nothing).unwrap();
    assert_eq!(script.program, "node");
    assert_eq!(script.args, vec!["/d/a.mjs".to_string()]);
    assert_eq!(script.current_dir.display(), "/d");
    assert!(!script.requires_runtime_install);

    let program = command_from_entry(&FilePath::new("/d/daemon"), nothing).unwrap();
    assert_eq!(program.program, "/d/daemon");
    assert!(program.args.is_empty());

    let found = |path: &FilePath| path.display() == "/p/node_modules/tsx/dist/cli.mjs";
    let typed = command_from_entry(&FilePath::new("/p/src/a.ts"), found).unwrap();
    assert_eq!(typed.program, "node");
    assert_eq!(
        typed.args,
        vec!["/p/node_modules/tsx/dist/cli.mjs".to_string(), "/p/src/a.ts".to_string()]
    );
    assert_eq!(typed.current_dir.display(), "/p/src");

    match command_from_entry(&FilePath::new("/p/src/a.ts"), nothing) {
        Err(CliError::ToolEnvironment(error)) => assert_eq!(
            error.to_string(),
            "Could not locate the tsx runtime required to launch the TypeScript daemon."
        ),
        _ => panic!("expected an environment error"),
    }
    match command_from_entry(&FilePath::new("/"), nothing) {
        Err(CliError::Other(message)) => {
            assert_eq!(message, "Daemon entrypoint has no parent directory")
        }
        _ => panic!("expected an error"),
    }
}

#[test]
fn the_nearest_tsx_is_found() {
    let found = |path: &FilePath| {
        ["/a/b/node_modules/tsx/dist/cli.mjs", "/node_modules/tsx/dist/cli.mjs"]
            .contains(&path.display().as_str())
    };
    assert_eq!(
        find_tsx_cli(&FilePath::new("/a/b/c/d.ts"), found).unwrap().display(),
        "/a/b/node_modules/tsx/dist/cli.mjs"
    );
    assert_eq!(
        find_tsx_cli(&FilePath::new("/a/d.ts"), found).unwrap().display(),
        "/node_modules/tsx/dist/cli.mjs"
    );
    let at_entry = |path: &FilePath| path.display() == "/a/d.ts/node_modules/tsx/dist/cli.mjs";
    assert!(find_tsx_cli(&FilePath::new("/a/d.ts"), at_entry).is_ok());
}

#[test]
fn embedded_files_have_their_places() {
    let base = FilePath::new("/b");
    let files = ensure_daemon_extracted(&base);
    let listed: Vec<(EmbeddedFile, String)> =
        files.iter().map(|(file, path)| (*file, path.display())).collect();
    assert_eq!(
        listed,
        vec![
            (EmbeddedFile::Daemon, "/b/daemon.mjs".to_string()),
            (EmbeddedFile::SandboxClient, "/b/sandbox-client.js".to_string()),
            (EmbeddedFile::PackageManifest, "/b/package.json".to_string()),
        ]
    );
    assert_eq!(embedded_path(&base, EmbeddedFile::Daemon).display(), "/b/daemon.mjs");
}

#[test]
fn files_are_replaced_only_if_they_differ() {
    let path = FilePath::new("/b/daemon.mjs");
    let same = ExistingFile::Contents("text".to_string());
    assert!(sync_text_file(&path, "text", &same, 7).unwrap().is_none());
    let other = ExistingFile::Contents("text ".to_string());
    assert_eq!(
        sync_text_file(&path, "text", &other, 7).unwrap().unwrap().display(),
        "/b/daemon.tmp.7"
    );
    assert_eq!(
        sync_text_file(&path, "text", &ExistingFile::Missing, 4294967295).unwrap().unwrap().display(),
        "/b/daemon.tmp.4294967295"
    );
    let unreadable = ExistingFile::Unreadable("denied".to_string());
    assert_eq!(sync_text_file(&path, "text", &unreadable, 7).unwrap_err(), "denied");
}

#[test]
fn the_runtime_needs_both_packages() {
    let base = FilePath::new("/b");
    let playwright = "/b/node_modules/playwright/package.json";
    let quickjs = "/b/node_modules/quickjs-emscripten/package.json";
    assert!(embedded_runtime_installed(&base, |path: &FilePath| {
        path.display() == playwright || path.display() == quickjs
    }));
    assert!(!embedded_runtime_installed(&base, |path: &FilePath| path.display() == playwright));
    assert!(!embedded_runtime_installed(&base, |path: &FilePath| path.display() == quickjs));
    assert!(dependency_installed(&base, "playwright", |path: &FilePath| {
        path.display() == playwright
    }));
}
