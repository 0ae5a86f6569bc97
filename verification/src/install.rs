//! Installing the runtime that the daemon needs.

use vstd::prelude::*;
use vstd::string::*;

use crate::exit_code::{CliError, ErrorModel, ToolEnvironmentError};
use crate::paths::{bytes_of, joined_path, lossy_text, text_from_bytes, FilePath};
use crate::text::{
    decimal, decimal_text, join, joined, lemma_mentions, mentions, outcome_view, signed_decimal,
    signed_text, texts, trim, trimmed,
};

verus! {

/// One step of the installation.
#[derive(Debug, Clone, Copy, PartialEq, Eq, Structural)]
pub enum InstallStep {
    /// Put the daemon's own files in place.
    ExtractDaemon,
    /// Install the packages.
    InstallPackages,
    /// Download Chromium.
    InstallChromium,
    /// See whether Chromium launches: that everything before went well does
    /// not say so.
    VerifyLaunch,
}

/// What to do next.
#[derive(Debug)]
pub enum InstallProgress {
    Next(InstallStep),
    Finished,
    Failed(CliError),
}

/// The step behind the one that went well, or the first one.
pub open spec fn step_after(previous: Option<InstallStep>) -> Option<InstallStep> {
    match previous {
        None => Some(InstallStep::ExtractDaemon),
        Some(InstallStep::ExtractDaemon) => Some(InstallStep::InstallPackages),
        Some(InstallStep::InstallPackages) => Some(InstallStep::InstallChromium),
        Some(InstallStep::InstallChromium) => Some(InstallStep::VerifyLaunch),
        Some(InstallStep::VerifyLaunch) => None,
    }
}

/// Installs the runtime, one step at a time: `previous` is the step that was
/// taken, if any, and `outcome` is what came of it. A step that fails ends the
/// installation, and it is finished only once Chromium has launched.
pub fn install_daemon_runtime(
    previous: Option<InstallStep>,
    outcome: Result<(), CliError>,
) -> (progress: InstallProgress)
    ensures
        match outcome {
            Err(error) => progress == InstallProgress::Failed(error),
            Ok(_) => match step_after(previous) {
                Some(step) => progress == InstallProgress::Next(step),
                None => progress == InstallProgress::Finished,
            },
        },
{
    match outcome {
        Err(error) => InstallProgress::Failed(error),
        Ok(_) => match previous {
            None => InstallProgress::Next(InstallStep::ExtractDaemon),
            Some(InstallStep::ExtractDaemon) => InstallProgress::Next(InstallStep::InstallPackages),
            Some(InstallStep::InstallPackages) => InstallProgress::Next(
                InstallStep::InstallChromium,
            ),
            Some(InstallStep::InstallChromium) => InstallProgress::Next(InstallStep::VerifyLaunch),
            Some(InstallStep::VerifyLaunch) => InstallProgress::Finished,
        },
    }
}

/// The step that comes after the given number of steps that went well.
pub open spec fn step_number(count: nat) -> Option<InstallStep>
    decreases count,
{
    if count == 0 {
        step_after(None)
    } else {
        match step_number((count - 1) as nat) {
            Some(step) => step_after(Some(step)),
            None => None,
        }
    }
}

/// An installation is finished only when everything was put in place, in this
/// order, and Chromium has launched.
pub proof fn law_install_ends_with_a_launch()
    ensures
        step_number(0) == Some(InstallStep::ExtractDaemon),
        step_number(1) == Some(InstallStep::InstallPackages),
        step_number(2) == Some(InstallStep::InstallChromium),
        step_number(3) == Some(InstallStep::VerifyLaunch),
        step_number(4) is None,
        forall|previous: Option<InstallStep>| #[trigger]
            step_after(previous) is None ==> previous == Some(InstallStep::VerifyLaunch),
{
    reveal_with_fuel(step_number, 5);
}

/// The arguments that the package manager is run with for a step.
pub open spec fn arguments_of(step: InstallStep) -> Seq<Seq<char>> {
    match step {
        InstallStep::InstallPackages => seq!["install"@],
        InstallStep::InstallChromium => seq![
            "exec"@,
            "--"@,
            "playwright"@,
            "install"@,
            "chromium"@,
        ],
        _ => Seq::empty(),
    }
}

/// The arguments that the package manager is run with for a step; none where
/// the step does not need it.
pub fn install_arguments(step: InstallStep) -> (args: Vec<String>)
    ensures
        texts(args@) == arguments_of(step),
{
    let mut args: Vec<String> = Vec::new();
    match step {
        InstallStep::InstallPackages => {
            args.push("install".to_string());
        },
        InstallStep::InstallChromium => {
            args.push("exec".to_string());
            args.push("--".to_string());
            args.push("playwright".to_string());
            args.push("install".to_string());
            args.push("chromium".to_string());
        },
        _ => {},
    }
    proof {
        assert(texts(args@) =~= arguments_of(step));
    }
    args
}

/// The package manager.
pub fn npm_command(windows: bool) -> (program: &'static str)
    ensures
        program@ == if windows {
            "npm.cmd"@
        } else {
            "npm"@
        },
{
    if windows {
        "npm.cmd"
    } else {
        "npm"
    }
}

/// What came of running a program: it is not there, it could not be run, or
/// it ended, with an exit code unless a signal ended it.
#[derive(Debug)]
pub enum ProgramRun {
    NotFound,
    Failed(String),
    Ended { success: bool, code: Option<i32> },
}

/// A program with its arguments.
pub open spec fn command_line(program: Seq<char>, args: Seq<Seq<char>>) -> Seq<char> {
    "`"@ + program + " "@ + joined(args, " "@)
}

/// What is said of a program that was run to install something.
pub open spec fn install_outcome(
    program: Seq<char>,
    args: Seq<Seq<char>>,
    current_dir: Seq<u8>,
    run: ProgramRun,
) -> Result<(), Seq<char>> {
    match run {
        ProgramRun::NotFound => Err(
            "Could not find `"@ + program
                + "` in PATH while setting up the embedded daemon runtime in "@ + lossy_text(
                current_dir,
            ) + ". Install Node.js/npm and run `dev-browser install` again."@,
        ),
        ProgramRun::Failed(error) => Err(
            "Failed to run "@ + command_line(program, args) + "` in "@ + lossy_text(current_dir)
                + ": "@ + error@,
        ),
        ProgramRun::Ended { success, code } => if success {
            Ok(())
        } else {
            match code {
                Some(code) => Err(
                    command_line(program, args) + "` failed with exit code "@ + signed_decimal(
                        code as int,
                    ),
                ),
                None => Err(command_line(program, args) + "` terminated by signal"@),
            }
        },
    }
}

fn command_text(program: &str, args: &Vec<String>) -> (text: String)
    ensures
        text@ == command_line(program@, texts(args@)),
{
    let mut text = "`".to_string();
    text.append(program);
    text.append(" ");
    let arguments = join(args, " ");
    text.append(&arguments);
    text
}

/// Judges a program that was run to install something.
pub fn run_install_command(
    program: &str,
    args: &Vec<String>,
    current_dir: &FilePath,
    run: &ProgramRun,
) -> (outcome: Result<(), ToolEnvironmentError>)
    ensures
        match outcome {
            Ok(_) => install_outcome(program@, texts(args@), current_dir@, *run) is Ok,
            Err(error) => install_outcome(program@, texts(args@), current_dir@, *run) == Err::<
                (),
                Seq<char>,
            >(error.0@),
        },
{
    match run {
        ProgramRun::NotFound => {
            let mut message = "Could not find `".to_string();
            message.append(program);
            message.append("` in PATH while setting up the embedded daemon runtime in ");
            message.append(&current_dir.display());
            message.append(". Install Node.js/npm and run `dev-browser install` again.");
            Err(ToolEnvironmentError(message))
        },
        ProgramRun::Failed(error) => {
            let mut message = "Failed to run ".to_string();
            let line = command_text(program, args);
            message.append(&line);
            message.append("` in ");
            message.append(&current_dir.display());
            message.append(": ");
            message.append(error);
            Err(ToolEnvironmentError(message))
        },
        ProgramRun::Ended { success, code } => {
            if *success {
                return Ok(());
            }
            let mut reason = command_text(program, args);
            match code {
                Some(code) => {
                    reason.append("` failed with exit code ");
                    let number = signed_text(*code as i64);
                    reason.append(&number);
                },
                None => {
                    reason.append("` terminated by signal");
                },
            }
            Err(ToolEnvironmentError(reason))
        },
    }
}

/// What is said of a launch of Chromium.
pub open spec fn probe_outcome(success: bool, stderr: Seq<char>) -> Result<(), Seq<char>> {
    if success {
        Ok(())
    } else {
        Err(
            "`dev-browser install` finished, but Chromium failed to actually launch."@ + (
            if trimmed(stderr).len() == 0 {
                Seq::empty()
            } else {
                "\n"@ + trimmed(stderr)
            })
                + "\nThis usually means a system dependency is missing (see https://playwright.dev/docs/browsers#install-system-dependencies) or the Chromium binary is corrupted — try running `dev-browser install` again."@,
        )
    }
}

/// Judges a launch of Chromium by whether it went well and what it wrote.
pub fn interpret_chromium_probe_result(success: bool, stderr: &str) -> (outcome: Result<(), String>)
    ensures
        outcome_view(outcome) == probe_outcome(success, stderr@),
{
    if success {
        return Ok(());
    }
    let detail = trim(stderr);
    let mut addition = String::new();
    if detail.as_str().unicode_len() > 0 {
        addition = "\n".to_string();
        addition.append(&detail);
    }
    let mut message =
        "`dev-browser install` finished, but Chromium failed to actually launch.".to_string();
    message.append(&addition);
    message.append(
        "\nThis usually means a system dependency is missing (see https://playwright.dev/docs/browsers#install-system-dependencies) or the Chromium binary is corrupted — try running `dev-browser install` again.",
    );
    Err(message)
}

/// What came of launching Chromium: there is nothing to run the probe with,
/// it could not be run, or it ended and wrote some bytes.
#[derive(Debug)]
pub enum ProbeRun {
    NotFound,
    Failed(String),
    Ended { success: bool, stderr: Vec<u8> },
}

/// What is said of the probe.
pub open spec fn launch_outcome(run: ProbeRun) -> Result<(), ErrorModel> {
    match run {
        ProbeRun::NotFound => Err(
            ErrorModel::ToolEnvironment(
                "Could not find `node` in PATH while verifying the Chromium install."@,
            ),
        ),
        ProbeRun::Failed(error) => Err(
            ErrorModel::Other("Failed to run the Chromium launch probe: "@ + error@),
        ),
        ProbeRun::Ended { success, stderr } => match probe_outcome(
            success,
            lossy_text(stderr@),
        ) {
            Ok(_) => Ok(()),
            Err(message) => Err(ErrorModel::ToolEnvironment(message)),
        },
    }
}

/// Judges the probe that launches Chromium.
pub fn verify_chromium_launches(run: &ProbeRun) -> (outcome: Result<(), CliError>)
    ensures
        match outcome {
            Ok(_) => launch_outcome(*run) is Ok,
            Err(error) => launch_outcome(*run) == Err::<(), ErrorModel>(error@),
        },
{
    match run {
        ProbeRun::NotFound => Err(
            CliError::ToolEnvironment(
                ToolEnvironmentError(
                    "Could not find `node` in PATH while verifying the Chromium install.".to_string(),
                ),
            ),
        ),
        ProbeRun::Failed(error) => {
            let mut message = "Failed to run the Chromium launch probe: ".to_string();
            message.append(error);
            Err(CliError::Other(message))
        },
        ProbeRun::Ended { success, stderr } => match interpret_chromium_probe_result(
            *success,
            &text_from_bytes(stderr),
        ) {
            Ok(_) => Ok(()),
            Err(message) => Err(CliError::ToolEnvironment(ToolEnvironmentError(message))),
        },
    }
}

/// The file that the probe is written to while it runs.
pub fn probe_path(base_dir: &FilePath, pid: u32) -> (path: FilePath)
    ensures
        path@ == joined_path(
            base_dir@,
            bytes_of(".chromium-launch-probe."@ + decimal(pid as nat) + ".mjs"@),
        ),
{
    let mut name = ".chromium-launch-probe.".to_string();
    let number = decimal_text(pid as u128);
    name.append(&number);
    name.append(".mjs");
    base_dir.join(&name)
}

/// The package manager is run for two of the steps: first to install the
/// packages, then to have Playwright install Chromium. The others need none.
pub proof fn law_the_package_manager_runs_for_two_steps(step: InstallStep)
    ensures
        arguments_of(step).len() > 0 <==> step is InstallPackages || step is InstallChromium,
        step is InstallPackages ==> arguments_of(step) == seq!["install"@],
        step is InstallChromium ==> arguments_of(step) == seq!["exec"@, "--"@] + seq![
            "playwright"@,
            "install"@,
            "chromium"@,
        ],
{
    if step is InstallChromium {
        assert(arguments_of(step) =~= seq!["exec"@, "--"@] + seq![
            "playwright"@,
            "install"@,
            "chromium"@,
        ]);
    }
}

proof fn lemma_two_mentions(
    start: Seq<char>,
    one: Seq<char>,
    middle: Seq<char>,
    other: Seq<char>,
    end: Seq<char>,
)
    ensures
        mentions(start + one + middle + other + end, one),
        mentions(start + one + middle + other + end, other),
{
    let text = start + one + middle + other + end;
    let rest = middle + other + end;
    lemma_mentions(start, one, rest);
    assert(text =~= start + one + rest);
    lemma_mentions(start + one + middle, other, end);
}

proof fn lemma_failed_mentions(
    program: Seq<char>,
    arguments: Seq<char>,
    dir: Seq<char>,
    error: Seq<char>,
)
    ensures
        ({
            let message = "Failed to run "@ + ("`"@ + program + " "@ + arguments) + "` in "@ + dir
                + ": "@ + error;
            &&& mentions(message, program)
            &&& mentions(message, arguments)
            &&& mentions(message, dir)
            &&& mentions(message, error)
        }),
{
    let message = "Failed to run "@ + ("`"@ + program + " "@ + arguments) + "` in "@ + dir + ": "@
        + error;
    let start = "Failed to run "@ + "`"@;
    let behind = "` in "@ + dir + ": "@ + error;
    lemma_two_mentions(start, program, " "@, arguments, behind);
    assert(message =~= start + program + " "@ + arguments + behind);
    let before = "Failed to run "@ + ("`"@ + program + " "@ + arguments) + "` in "@;
    lemma_two_mentions(before, dir, ": "@, error, Seq::empty());
    assert(message =~= before + dir + ": "@ + error + Seq::<char>::empty());
}

proof fn lemma_ended_mentions(program: Seq<char>, arguments: Seq<char>, ending: Seq<char>)
    ensures
        ({
            let message = ("`"@ + program + " "@ + arguments) + ending;
            &&& mentions(message, program)
            &&& mentions(message, arguments + ending)
        }),
{
    let message = ("`"@ + program + " "@ + arguments) + ending;
    lemma_two_mentions("`"@, program, " "@, arguments + ending, Seq::empty());
    assert(message =~= "`"@ + program + " "@ + (arguments + ending) + Seq::<char>::empty());
}

/// A program that was run to install something is content exactly if it ended
/// with success. Otherwise what is said names the program and, if it could not
/// even be run, the directory; or, if it failed, its exit code.
pub proof fn law_an_install_command_must_succeed(
    program: Seq<char>,
    args: Seq<Seq<char>>,
    current_dir: Seq<u8>,
    run: ProgramRun,
)
    ensures
        install_outcome(program, args, current_dir, run) is Ok <==> (
        run matches ProgramRun::Ended { success, .. } && success),
        install_outcome(program, args, current_dir, run) matches Err(message) ==> {
            &&& mentions(message, program)
            &&& !(run is Ended) ==> mentions(message, lossy_text(current_dir))
            &&& run is NotFound ==> mentions(
                message,
                ". Install Node.js/npm and run `dev-browser install` again."@,
            )
            &&& run matches ProgramRun::Failed(error) ==> mentions(message, error@) && mentions(
                message,
                joined(args, " "@),
            )
            &&& run matches ProgramRun::Ended { code: Some(code), .. } ==> mentions(
                message,
                joined(args, " "@) + "` failed with exit code "@ + signed_decimal(code as int),
            )
            &&& run matches ProgramRun::Ended { code: None, .. } ==> mentions(
                message,
                joined(args, " "@) + "` terminated by signal"@,
            )
        },
{
    let dir = lossy_text(current_dir);
    let arguments = joined(args, " "@);
    match run {
        ProgramRun::NotFound => {
            lemma_two_mentions(
                "Could not find `"@,
                program,
                "` in PATH while setting up the embedded daemon runtime in "@,
                dir,
                ". Install Node.js/npm and run `dev-browser install` again."@,
            );
            lemma_mentions(
                "Could not find `"@ + program
                    + "` in PATH while setting up the embedded daemon runtime in "@ + dir,
                ". Install Node.js/npm and run `dev-browser install` again."@,
                Seq::empty(),
            );
        },
        ProgramRun::Failed(error) => {
            lemma_failed_mentions(program, arguments, dir, error@);
        },
        ProgramRun::Ended { success: _, code } => {
            match code {
                Some(code) => {
                    let number = signed_decimal(code as int);
                    let ending = "` failed with exit code "@ + number;
                    lemma_ended_mentions(program, arguments, ending);
                    let line = command_line(program, args);
                    assert(line + "` failed with exit code "@ + number =~= line + ending);
                    assert(arguments + "` failed with exit code "@ + number =~= arguments + ending);
                },
                None => {
                    lemma_ended_mentions(program, arguments, "` terminated by signal"@);
                },
            }
        },
    }
}

/// An install is content with Chromium exactly if the probe ran and ended with
/// success. That there is nothing to run it with, or that Chromium failed, is a
/// problem of the environment; that the probe could not be run is not. What
/// Chromium wrote is passed on, without the white space around it.
pub proof fn law_chromium_must_launch(run: ProbeRun)
    ensures
        launch_outcome(run) is Ok <==> (run matches ProbeRun::Ended { success, .. } && success),
        launch_outcome(run) matches Err(error) ==> {
            &&& error is ToolEnvironment <==> !(run is Failed)
            &&& error is Other <==> run is Failed
        },
        run matches ProbeRun::Failed(reason) ==> launch_outcome(run) == Err::<(), ErrorModel>(
            ErrorModel::Other("Failed to run the Chromium launch probe: "@ + reason@),
        ),
        run matches ProbeRun::Ended { success: false, stderr } ==> mentions(
            launch_outcome(run)->Err_0->ToolEnvironment_0,
            trimmed(lossy_text(stderr@)),
        ),
        run is NotFound ==> mentions(launch_outcome(run)->Err_0->ToolEnvironment_0, "`node`"@),
{
    if let ProbeRun::Ended { success: false, stderr } = run {
        let detail = trimmed(lossy_text(stderr@));
        let start = "`dev-browser install` finished, but Chromium failed to actually launch."@;
        let end =
            "\nThis usually means a system dependency is missing (see https://playwright.dev/docs/browsers#install-system-dependencies) or the Chromium binary is corrupted — try running `dev-browser install` again."@;
        if detail.len() == 0 {
            lemma_mentions(start, detail, end);
            assert(start + detail + end =~= start + Seq::<char>::empty() + end);
        } else {
            lemma_mentions(start + "\n"@, detail, end);
            assert(start + "\n"@ + detail + end =~= start + ("\n"@ + detail) + end);
        }
    }
    if run is NotFound {
        let message = "Could not find `node` in PATH while verifying the Chromium install."@;
        reveal_strlit("Could not find `node` in PATH while verifying the Chromium install.");
        reveal_strlit("`node`");
        reveal(mentions);
        assert(message.subrange(15int, 15int + "`node`"@.len()) =~= "`node`"@);
    }
}

/// A launch is judged by whether it went well alone; what it wrote is passed on if
/// it did not, without the white space around it, on a line of its own.
pub proof fn law_a_failed_launch_passes_on_what_was_written(success: bool, stderr: Seq<char>)
    ensures
        probe_outcome(success, stderr) is Ok <==> success,
        !success ==> mentions(probe_outcome(success, stderr)->Err_0, trimmed(stderr)),
        !success && trimmed(stderr).len() > 0 ==> mentions(
            probe_outcome(success, stderr)->Err_0,
            "\n"@ + trimmed(stderr),
        ),
        !success ==> mentions(
            probe_outcome(success, stderr)->Err_0,
            "\nThis usually means a system dependency is missing (see https://playwright.dev/docs/browsers#install-system-dependencies) or the Chromium binary is corrupted — try running `dev-browser install` again."@,
        ),
        !success ==> mentions(
            probe_outcome(success, stderr)->Err_0,
            "`dev-browser install` finished, but Chromium failed to actually launch."@,
        ),
{
    let detail = trimmed(stderr);
    let start = "`dev-browser install` finished, but Chromium failed to actually launch."@;
    let end =
        "\nThis usually means a system dependency is missing (see https://playwright.dev/docs/browsers#install-system-dependencies) or the Chromium binary is corrupted — try running `dev-browser install` again."@;
    if !success {
        let addition = if detail.len() == 0 {
            Seq::empty()
        } else {
            "\n"@ + detail
        };
        lemma_mentions(Seq::empty(), start, addition + end);
        lemma_mentions(start + addition, end, Seq::empty());
        assert(start + addition + end =~= start + (addition + end));
        lemma_mentions(start, addition, end);
        if detail.len() == 0 {
            lemma_mentions(start, detail, end);
            assert(start + detail + end =~= start + addition + end);
        } else {
            lemma_mentions(start + "\n"@, detail, end);
            assert(start + "\n"@ + detail + end =~= start + addition + end);
        }
    }
}

} // verus!
