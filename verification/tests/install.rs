use dev_browser::exit_code::{CliError, ToolEnvironmentError};
use dev_browser::install::{
    install_arguments, install_daemon_runtime, interpret_chromium_probe_result, npm_command,
    probe_path, run_install_command, verify_chromium_launches, InstallProgress, InstallStep,
    ProbeRun, ProgramRun,
};
use dev_browser::paths::FilePath;

#[test]
fn chromium_probe_success_returns_ok() {
    assert!(interpret_chromium_probe_result(true, "").is_ok());
}

#[test]
fn chromium_probe_failure_names_hint_and_includes_stderr_detail() {
    let error =
        interpret_chromium_probe_result(false, "libnss3.so: cannot open shared object file")
            .expect_err("a failed probe must be Err");
    assert!(error.contains("Chromium failed to actually launch"));
    assert!(error.contains("libnss3.so"));
    assert!(error.contains("dev-browser install"));
}

#[test]
fn chromium_probe_failure_without_stderr_still_names_the_hint() {
    let error = interpret_chromium_probe_result(false, "")
        .expect_err("a failed probe must be Err even with empty stderr");
    assert!(error.contains("Chromium failed to actually launch"));
    assert!(error.contains("install-system-dependencies"));
}

#[test]
fn tool_environment_error_displays_its_message() {
    let error = ToolEnvironmentError("boom".to_string());
    assert_eq!(error.to_string(), "boom");
}

#[test]
fn the_probe_is_quoted_without_the_space_around_it() {
    let hint = "\nThis usually means a system dependency is missing (see https://playwright.dev/docs/browsers#install-system-dependencies) or the Chromium binary is corrupted \u{2014} try running `dev-browser install` again.";
    let title = "`dev-browser install` finished, but Chromium failed to actually launch.";
    assert_eq!(
        interpret_chromium_probe_result(false, "  oh no\n\n").unwrap_err(),
        format!("{title}\noh no{hint}")
    );
    assert_eq!(
        interpret_chromium_probe_result(false, " \n").unwrap_err(),
        format!("{title}{hint}")
    );
    assert!(interpret_chromium_probe_result(true, "noise").is_ok());
}

#[test]
fn a_probe_that_cannot_run_is_told_apart() {
    match verify_chromium_launches(&ProbeRun::NotFound) {
        Err(CliError::ToolEnvironment(error)) => assert_eq!(
            error.to_string(),
            "Could not find `node` in PATH while verifying the Chromium install."
        ),
        _ => panic!("expected an environment error"),
    }
    match verify_chromium_launches(&ProbeRun::Failed("denied".to_string())) {
        Err(CliError::Other(message)) => {
            assert_eq!(message, "Failed to run the Chromium launch probe: denied")
        }
        _ => panic!("expected a generic error"),
    }
    let failed = ProbeRun::Ended { success: false, stderr: vec![120, 255] };
    match verify_chromium_launches(&failed) {
        Err(CliError::ToolEnvironment(error)) => {
            assert!(error.to_string().contains("actually launch.\nx\u{fffd}\n"))
        }
        _ => panic!("expected an environment error"),
    }
    let launched = ProbeRun::Ended { success: true, stderr: vec![120, 255] };
    assert!(verify_chromium_launches(&launched).is_ok());
}

#[test]
fn the_installation_ends_with_a_launch() {
    let mut previous: Option<InstallStep> = None;
    let mut steps: Vec<InstallStep> = Vec::new();
    loop {
        match install_daemon_runtime(previous, Ok(())) {
            InstallProgress::Next(step) => {
                steps.push(step);
                previous = Some(step);
            }
            InstallProgress::Finished => break,
            InstallProgress::Failed(_) => panic!("nothing failed"),
        }
    }
    assert_eq!(
        steps,
        vec![
            InstallStep::ExtractDaemon,
            InstallStep::InstallPackages,
            InstallStep::InstallChromium,
            InstallStep::VerifyLaunch,
        ]
    );
}

#[test]
fn a_failed_step_ends_the_installation() {
    for step in [InstallStep::ExtractDaemon, InstallStep::InstallChromium, InstallStep::VerifyLaunch] {
        match install_daemon_runtime(Some(step), Err(CliError::Other("no".to_string()))) {
            InstallProgress::Failed(error) => assert_eq!(error.to_string(), "no"),
            _ => panic!("expected the failure"),
        }
    }
}

#[test]
fn the_package_manager_is_told_what_to_install() {
    assert_eq!(install_arguments(InstallStep::InstallPackages), vec!["install".to_string()]);
    assert_eq!(
        install_arguments(InstallStep::InstallChromium).join(" "),
        "exec -- playwright install chromium"
    );
    assert!(install_arguments(InstallStep::VerifyLaunch).is_empty());
    assert_eq!(npm_command(true), "npm.cmd");
    assert_eq!(npm_command(false), "npm");
}

#[test]
fn every_failed_install_command_says_why() {
    let dir = FilePath::new("/b");
    let args = install_arguments(InstallStep::InstallChromium);
    let judge = |run: ProgramRun| run_install_command("npm", &args, &dir, &run);
    assert!(judge(ProgramRun::Ended { success: true, code: Some(0) }).is_ok());
    assert_eq!(
        judge(ProgramRun::NotFound).unwrap_err().to_string(),
        "Could not find `npm` in PATH while setting up the embedded daemon runtime in /b. Install Node.js/npm and run `dev-browser install` again."
    );
    assert_eq!(
        judge(ProgramRun::Failed("denied".to_string())).unwrap_err().to_string(),
        "Failed to run `npm exec -- playwright install chromium` in /b: denied"
    );
    assert_eq!(
        judge(ProgramRun::Ended { success: false, code: Some(-3) }).unwrap_err().to_string(),
        "`npm exec -- playwright install chromium` failed with exit code -3"
    );
    assert_eq!(
        judge(ProgramRun::Ended { success: false, code: None }).unwrap_err().to_string(),
        "`npm exec -- playwright install chromium` terminated by signal"
    );
}

#[test]
fn the_probe_has_a_file_of_its_own() {
    assert_eq!(
        probe_path(&FilePath::new("/b"), 42).display(),
        "/b/.chromium-launch-probe.42.mjs"
    );
}
