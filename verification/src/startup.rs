//! Starting the daemon and waiting for it to stop.
//!
//! Both are decided here one event at a time; whoever drives them does what
//! the action says and comes back with the event.

use vstd::prelude::*;
use vstd::string::*;

use crate::daemon::{daemon_has_exited, is_alive, SignalProbe};
use crate::exit_code::{
    code_of, error_code_of, CliError, ErrorModel, ExitCode, ToolEnvironmentError,
};
use crate::text::{decimal, decimal_text, ends_with, mentions};

verus! {

/// How long a daemon that was spawned may take to answer.
pub const START_TIMEOUT_MS: u64 = 5_000;

/// How long to sleep between two looks at the daemon.
pub const POLL_INTERVAL_MS: u64 = 100;

/// What the start of the daemon is waiting for.
#[derive(Debug, Clone, Copy, PartialEq, Eq, Structural)]
pub enum StartStage {
    /// To hear whether the daemon runs already.
    FirstCheck,
    /// For the lock that keeps others from starting it at the same time.
    Locking,
    /// To hear whether somebody started it before the lock was had.
    CheckUnderLock,
    /// For the command that launches it.
    Finding,
    /// To hear whether the packages that it needs are installed.
    CheckingRuntime,
    /// For its process.
    Spawning,
    /// To hear whether it had its time.
    Polling,
    /// To hear whether it runs by now.
    CheckSpawned,
    /// For nothing: the start is over.
    Over,
}

/// What happened.
#[derive(Debug, Clone, Copy, PartialEq, Eq, Structural)]
pub enum StartEvent {
    Running(bool),
    LockAcquired,
    CommandFound { requires_runtime_install: bool },
    RuntimeInstalled(bool),
    Spawned,
    SpawnFailed,
    DeadlinePassed(bool),
}

/// Why a start failed.
#[derive(Debug, Clone, Copy, PartialEq, Eq, Structural)]
pub enum StartFailure {
    /// The packages that the daemon needs are missing.
    MissingRuntime,
    /// Its process could not be started.
    Spawn,
    /// It took too long to answer.
    Timeout,
}

/// What to do.
#[derive(Debug, Clone, Copy, PartialEq, Eq, Structural)]
pub enum StartAction {
    CheckRunning,
    AcquireLock,
    FindCommand,
    CheckRuntime,
    Spawn,
    CheckDeadline,
    SleepThenCheckRunning,
    Succeed,
    Fail(StartFailure),
    Nothing,
}

/// The next stage and what to do, for an event. An event that the stage does
/// not wait for changes nothing.
pub open spec fn start_step(stage: StartStage, event: StartEvent) -> (StartStage, StartAction) {
    match (stage, event) {
        (StartStage::FirstCheck, StartEvent::Running(running)) => if running {
            (StartStage::Over, StartAction::Succeed)
        } else {
            (StartStage::Locking, StartAction::AcquireLock)
        },
        (StartStage::Locking, StartEvent::LockAcquired) => (
            StartStage::CheckUnderLock,
            StartAction::CheckRunning,
        ),
        (StartStage::CheckUnderLock, StartEvent::Running(running)) => if running {
            (StartStage::Over, StartAction::Succeed)
        } else {
            (StartStage::Finding, StartAction::FindCommand)
        },
        (
            StartStage::Finding,
            StartEvent::CommandFound { requires_runtime_install },
        ) => if requires_runtime_install {
            (StartStage::CheckingRuntime, StartAction::CheckRuntime)
        } else {
            (StartStage::Spawning, StartAction::Spawn)
        },
        (StartStage::CheckingRuntime, StartEvent::RuntimeInstalled(installed)) => if installed {
            (StartStage::Spawning, StartAction::Spawn)
        } else {
            (StartStage::Over, StartAction::Fail(StartFailure::MissingRuntime))
        },
        (StartStage::Spawning, StartEvent::Spawned) => (
            StartStage::Polling,
            StartAction::CheckDeadline,
        ),
        (StartStage::Spawning, StartEvent::SpawnFailed) => (
            StartStage::Over,
            StartAction::Fail(StartFailure::Spawn),
        ),
        (StartStage::Polling, StartEvent::DeadlinePassed(passed)) => if passed {
            (StartStage::Over, StartAction::Fail(StartFailure::Timeout))
        } else {
            (StartStage::CheckSpawned, StartAction::SleepThenCheckRunning)
        },
        (StartStage::CheckSpawned, StartEvent::Running(running)) => if running {
            (StartStage::Over, StartAction::Succeed)
        } else {
            (StartStage::Polling, StartAction::CheckDeadline)
        },
        _ => (stage, StartAction::Nothing),
    }
}

/// Makes sure that the daemon runs. The start begins in
/// [`StartStage::FirstCheck`], with a look at whether the daemon runs.
pub fn ensure_daemon(stage: StartStage, event: StartEvent) -> (next: (StartStage, StartAction))
    ensures
        next == start_step(stage, event),
{
    match (stage, event) {
        (StartStage::FirstCheck, StartEvent::Running(running)) => if running {
            (StartStage::Over, StartAction::Succeed)
        } else {
            (StartStage::Locking, StartAction::AcquireLock)
        },
        (StartStage::Locking, StartEvent::LockAcquired) => (
            StartStage::CheckUnderLock,
            StartAction::CheckRunning,
        ),
        (StartStage::CheckUnderLock, StartEvent::Running(running)) => if running {
            (StartStage::Over, StartAction::Succeed)
        } else {
            (StartStage::Finding, StartAction::FindCommand)
        },
        (
            StartStage::Finding,
            StartEvent::CommandFound { requires_runtime_install },
        ) => if requires_runtime_install {
            (StartStage::CheckingRuntime, StartAction::CheckRuntime)
        } else {
            (StartStage::Spawning, StartAction::Spawn)
        },
        (StartStage::CheckingRuntime, StartEvent::RuntimeInstalled(installed)) => if installed {
            (StartStage::Spawning, StartAction::Spawn)
        } else {
            (StartStage::Over, StartAction::Fail(StartFailure::MissingRuntime))
        },
        (StartStage::Spawning, StartEvent::Spawned) => (
            StartStage::Polling,
            StartAction::CheckDeadline,
        ),
        (StartStage::Spawning, StartEvent::SpawnFailed) => (
            StartStage::Over,
            StartAction::Fail(StartFailure::Spawn),
        ),
        (StartStage::Polling, StartEvent::DeadlinePassed(passed)) => if passed {
            (StartStage::Over, StartAction::Fail(StartFailure::Timeout))
        } else {
            (StartStage::CheckSpawned, StartAction::SleepThenCheckRunning)
        },
        (StartStage::CheckSpawned, StartEvent::Running(running)) => if running {
            (StartStage::Over, StartAction::Succeed)
        } else {
            (StartStage::Polling, StartAction::CheckDeadline)
        },
        _ => (stage, StartAction::Nothing),
    }
}

/// What is said of a start that failed, given the details: why the process
/// could not be started, or where the log is.
pub open spec fn failure_text(failure: StartFailure, detail: Seq<char>) -> Seq<char> {
    match failure {
        StartFailure::MissingRuntime =>
            "Embedded daemon dependencies are missing. Run `dev-browser install` first."@,
        StartFailure::Spawn => detail,
        StartFailure::Timeout =>
            "Daemon failed to start within 5 seconds. Check the daemon log for details: "@
            + detail,
    }
}

/// The error of a start that failed. Whatever kept the daemon from starting is
/// a problem of the environment, and leads to the exit code for one.
pub fn start_error(failure: StartFailure, detail: &str) -> (error: CliError)
    ensures
        error@ == ErrorModel::ToolEnvironment(failure_text(failure, detail@)),
        error_code_of(error@) == code_of(ExitCode::ToolEnvironment),
{
    let message = match failure {
        StartFailure::MissingRuntime =>
            "Embedded daemon dependencies are missing. Run `dev-browser install` first.".to_string(),
        StartFailure::Spawn => detail.to_string(),
        StartFailure::Timeout => {
            let mut message =
                "Daemon failed to start within 5 seconds. Check the daemon log for details: ".to_string();
            message.append(detail);
            message
        },
    };
    CliError::ToolEnvironment(ToolEnvironmentError(message))
}

/// The stage after a sequence of events.
pub open spec fn stage_after(events: Seq<StartEvent>) -> StartStage
    decreases events.len(),
{
    if events.len() == 0 {
        StartStage::FirstCheck
    } else {
        start_step(stage_after(events.drop_last()), events.last()).0
    }
}

/// The action that the event at `i` leads to.
pub open spec fn action_at(events: Seq<StartEvent>, i: int) -> StartAction {
    start_step(stage_after(events.take(i)), events[i]).1
}

/// Whether the daemon was seen not to run, after the lock was acquired.
pub open spec fn absent_under_lock(events: Seq<StartEvent>) -> bool {
    exists|i: int, j: int|
        0 <= i < j < events.len() && #[trigger] events[i] == StartEvent::LockAcquired
            && #[trigger] events[j] == StartEvent::Running(false)
}

proof fn lemma_absent_under_lock_stays(events: Seq<StartEvent>, event: StartEvent)
    requires
        absent_under_lock(events),
    ensures
        absent_under_lock(events.push(event)),
{
    let (i, j): (int, int) = choose|i: int, j: int|
        0 <= i < j < events.len() && #[trigger] events[i] == StartEvent::LockAcquired
            && #[trigger] events[j] == StartEvent::Running(false);
    assert(events.push(event)[i] == events[i]);
    assert(events.push(event)[j] == events[j]);
}

/// How far a start has come.
pub open spec fn is_past_lock(stage: StartStage) -> bool {
    stage is Finding || stage is CheckingRuntime || stage is Spawning || is_past_spawn(stage)
}

/// Whether the daemon was spawned, or was to be.
pub open spec fn is_past_spawn(stage: StartStage) -> bool {
    stage is Polling || stage is CheckSpawned
}

proof fn lemma_stage_history(events: Seq<StartEvent>)
    ensures
        stage_after(events) is CheckUnderLock ==> exists|i: int|
            0 <= i < events.len() && #[trigger] events[i] == StartEvent::LockAcquired,
        is_past_lock(stage_after(events)) ==> absent_under_lock(events),
    decreases events.len(),
{
    if events.len() > 0 {
        let before = events.drop_last();
        let last = events.last();
        lemma_stage_history(before);
        assert(before.push(last) =~= events);
        let stage = stage_after(before);
        let next = stage_after(events);
        if next is CheckUnderLock {
            if stage is CheckUnderLock {
                let i = choose|i: int|
                    0 <= i < before.len() && #[trigger] before[i] == StartEvent::LockAcquired;
                assert(events[i] == StartEvent::LockAcquired);
            } else {
                assert(events[events.len() - 1] == StartEvent::LockAcquired);
            }
        }
        if is_past_lock(next) {
            if is_past_lock(stage) {
                lemma_absent_under_lock_stays(before, last);
            } else {
                let i = choose|i: int|
                    0 <= i < before.len() && #[trigger] before[i] == StartEvent::LockAcquired;
                assert(events[i] == StartEvent::LockAcquired);
                assert(events[events.len() - 1] == StartEvent::Running(false));
            }
        }
    }
}

/// Whatever happens, the daemon is spawned only by one who holds the lock and
/// has seen, while holding it, that the daemon does not run.
pub proof fn law_spawn_only_under_lock(events: Seq<StartEvent>, i: int)
    requires
        0 <= i < events.len(),
        action_at(events, i) is Spawn,
    ensures
        absent_under_lock(events.take(i)),
{
    lemma_stage_history(events.take(i));
}

proof fn lemma_no_way_back(events: Seq<StartEvent>, i: int, j: int)
    requires
        0 <= i <= j <= events.len(),
        stage_after(events.take(i)) is Spawning || is_past_spawn(stage_after(events.take(i)))
            || stage_after(events.take(i)) is Over,
    ensures
        stage_after(events.take(j)) is Spawning || is_past_spawn(stage_after(events.take(j)))
            || stage_after(events.take(j)) is Over,
    decreases j - i,
{
    if i < j {
        lemma_no_way_back(events, i, j - 1);
        assert(events.take(j).drop_last() =~= events.take(j - 1));
    }
}

/// Whatever happens, the daemon is spawned at most once.
pub proof fn law_spawn_at_most_once(events: Seq<StartEvent>, i: int, j: int)
    requires
        0 <= i < j < events.len(),
        action_at(events, i) is Spawn,
    ensures
        !(action_at(events, j) is Spawn),
{
    assert(events.take(i + 1).drop_last() =~= events.take(i));
    assert(events.take(i + 1).last() == events[i]);
    lemma_no_way_back(events, i + 1, j);
}

/// A daemon that needs packages is spawned only once they were found to be
/// installed.
pub proof fn law_spawn_only_with_its_packages(stage: StartStage, event: StartEvent)
    requires
        start_step(stage, event).1 is Spawn,
    ensures
        event == (StartEvent::CommandFound { requires_runtime_install: false }) || event
            == StartEvent::RuntimeInstalled(true),
{
}

/// A start that fails says so only for one of three reasons: the packages were
/// found missing, the process could not be started, or the time was up.
pub proof fn law_start_fails_only_for_a_reason(stage: StartStage, event: StartEvent)
    requires
        start_step(stage, event).1 is Fail,
    ensures
        match start_step(stage, event).1 {
            StartAction::Fail(StartFailure::MissingRuntime) => event
                == StartEvent::RuntimeInstalled(false),
            StartAction::Fail(StartFailure::Spawn) => event is SpawnFailed,
            StartAction::Fail(StartFailure::Timeout) => event == StartEvent::DeadlinePassed(true),
            _ => false,
        },
        start_step(stage, event).0 is Over,
{
}

/// The start succeeds only if the daemon was just seen to run.
pub proof fn law_start_succeeds_only_with_a_daemon(stage: StartStage, event: StartEvent)
    requires
        start_step(stage, event).1 is Succeed,
    ensures
        event == StartEvent::Running(true),
{
}

/// A daemon that runs already is left alone: the start succeeds at once, without
/// the lock. One that somebody else has started while the lock was waited for is
/// left alone as well.
pub proof fn law_a_running_daemon_is_left_alone()
    ensures
        start_step(StartStage::FirstCheck, StartEvent::Running(true)) == (
            StartStage::Over,
            StartAction::Succeed,
        ),
        ({
            let waiting = start_step(StartStage::FirstCheck, StartEvent::Running(false));
            let locked = start_step(waiting.0, StartEvent::LockAcquired);
            &&& waiting.1 is AcquireLock
            &&& locked.1 is CheckRunning
            &&& start_step(locked.0, StartEvent::Running(true)) == (
                StartStage::Over,
                StartAction::Succeed,
            )
        }),
{
}

/// A daemon that does not run is started: its command is found under the lock,
/// the packages that it needs are looked for if it needs any, and it is spawned.
/// Without the packages, or if it cannot be spawned, the start fails and says so.
pub proof fn law_an_absent_daemon_is_started(requires_runtime_install: bool)
    ensures
        ({
            let waiting = start_step(StartStage::FirstCheck, StartEvent::Running(false));
            let locked = start_step(waiting.0, StartEvent::LockAcquired);
            let absent = start_step(locked.0, StartEvent::Running(false));
            let found = start_step(absent.0, StartEvent::CommandFound { requires_runtime_install });
            let spawning = if requires_runtime_install {
                start_step(found.0, StartEvent::RuntimeInstalled(true))
            } else {
                found
            };
            &&& absent.1 is FindCommand
            &&& requires_runtime_install ==> found.1 is CheckRuntime
            &&& requires_runtime_install ==> start_step(
                found.0,
                StartEvent::RuntimeInstalled(false),
            ) == (StartStage::Over, StartAction::Fail(StartFailure::MissingRuntime))
            &&& spawning.1 is Spawn
            &&& start_step(spawning.0, StartEvent::Spawned).1 is CheckDeadline
            &&& start_step(spawning.0, StartEvent::SpawnFailed) == (
                StartStage::Over,
                StartAction::Fail(StartFailure::Spawn),
            )
        }),
{
}

/// A daemon that was spawned is looked at again and again, each time after a
/// sleep, until it runs or its time is up.
pub proof fn law_a_spawned_daemon_is_waited_for()
    ensures
        ({
            let spawned = start_step(StartStage::Spawning, StartEvent::Spawned);
            let slept = start_step(spawned.0, StartEvent::DeadlinePassed(false));
            &&& start_step(spawned.0, StartEvent::DeadlinePassed(true)) == (
                StartStage::Over,
                StartAction::Fail(StartFailure::Timeout),
            )
            &&& slept.1 is SleepThenCheckRunning
            &&& start_step(slept.0, StartEvent::Running(true)) == (
                StartStage::Over,
                StartAction::Succeed,
            )
            &&& start_step(slept.0, StartEvent::Running(false)) == spawned
        }),
{
}

/// Only what a stage waits for takes a start further.
pub proof fn law_only_awaited_events_count(stage: StartStage, event: StartEvent)
    requires
        match stage {
            StartStage::FirstCheck => !(event is Running),
            StartStage::Locking => !(event is LockAcquired),
            StartStage::CheckUnderLock => !(event is Running),
            StartStage::Finding => !(event is CommandFound),
            StartStage::CheckingRuntime => !(event is RuntimeInstalled),
            StartStage::Spawning => !(event is Spawned) && !(event is SpawnFailed),
            StartStage::Polling => !(event is DeadlinePassed),
            StartStage::CheckSpawned => !(event is Running),
            StartStage::Over => true,
        },
    ensures
        start_step(stage, event) == (stage, StartAction::Nothing),
{
}

/// What is said of a start that failed tells what to do about it: to install the
/// packages, or to look at the log after the seconds that the daemon had; why its
/// process could not be started is passed on as it is.
pub proof fn law_a_failed_start_says_what_to_do(failure: StartFailure, detail: Seq<char>)
    ensures
        failure is MissingRuntime ==> failure_text(failure, detail)
            == "Embedded daemon dependencies are missing. Run `dev-browser install` first."@,
        failure is MissingRuntime ==> mentions(
            failure_text(failure, detail),
            "Run `dev-browser install` first."@,
        ),
        failure is Spawn ==> failure_text(failure, detail) == detail,
        failure is Timeout ==> mentions(
            failure_text(failure, detail),
            "within "@ + decimal((START_TIMEOUT_MS / 1_000) as nat) + " seconds"@,
        ),
        failure is Timeout ==> ends_with(failure_text(failure, detail), detail),
        START_TIMEOUT_MS == 5_000,
        POLL_INTERVAL_MS == 100,
{
    reveal(mentions);
    reveal_with_fuel(decimal, 2);
    let install = "Embedded daemon dependencies are missing. Run `dev-browser install` first."@;
    reveal_strlit("Embedded daemon dependencies are missing. Run `dev-browser install` first.");
    reveal_strlit("Run `dev-browser install` first.");
    assert(install.subrange(42int, 42int + "Run `dev-browser install` first."@.len())
        =~= "Run `dev-browser install` first."@);
    let late = "Daemon failed to start within 5 seconds. Check the daemon log for details: "@;
    reveal_strlit("Daemon failed to start within 5 seconds. Check the daemon log for details: ");
    reveal_strlit("within ");
    reveal_strlit(" seconds");
    let part = "within "@ + decimal((START_TIMEOUT_MS / 1_000) as nat) + " seconds"@;
    assert((late + detail).subrange(23int, 23int + part.len()) =~= part);
    assert((late + detail).skip((late + detail).len() - detail.len()) =~= detail);
}

/// A start that is over stays over, and asks for nothing any more.
pub proof fn law_over_is_final(event: StartEvent)
    ensures
        start_step(StartStage::Over, event) == (StartStage::Over, StartAction::Nothing),
{
}

// ---------------------------------------------------------------------------
// Waiting for the daemon to stop
// ---------------------------------------------------------------------------

/// What a look at the daemon that was told to stop shows.
#[derive(Debug, Clone, Copy, PartialEq, Eq, Structural)]
pub enum StopLook {
    /// It had its time.
    DeadlinePassed,
    /// Whether its socket is unreachable, and what came of sending its process
    /// signal zero.
    Probed { daemon_unreachable: bool, probe: SignalProbe },
}

/// What to do about it.
#[derive(Debug)]
pub enum StopAction {
    Stopped,
    Sleep,
    Fail(ToolEnvironmentError),
}

/// Waits for the daemon to stop: it has stopped once its socket is unreachable
/// and its process is gone, and it must have by the deadline.
pub fn wait_for_daemon_exit(pid: i32, look: StopLook, timeout_secs: u64, log_path: &str) -> (action:
    StopAction)
    ensures
        match look {
            StopLook::DeadlinePassed => action is Fail && action->Fail_0.0@
                == "Daemon failed to stop within "@ + decimal(timeout_secs as nat)
                + " seconds. Check the daemon log for details: "@ + log_path@,
            StopLook::Probed { daemon_unreachable, probe } => if daemon_unreachable
                && !is_alive(pid, probe) {
                action is Stopped
            } else {
                action is Sleep
            },
        },
{
    match look {
        StopLook::DeadlinePassed => {
            let mut message = "Daemon failed to stop within ".to_string();
            let seconds = decimal_text(timeout_secs as u128);
            message.append(&seconds);
            message.append(" seconds. Check the daemon log for details: ");
            message.append(log_path);
            StopAction::Fail(ToolEnvironmentError(message))
        },
        StopLook::Probed { daemon_unreachable, probe } => if daemon_has_exited(
            pid,
            daemon_unreachable,
            probe,
        ) {
            StopAction::Stopped
        } else {
            StopAction::Sleep
        },
    }
}

} // verus!
