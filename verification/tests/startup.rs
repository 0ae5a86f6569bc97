use dev_browser::daemon::SignalProbe;
use dev_browser::exit_code::classify_error_exit_code;
use dev_browser::startup::{
    ensure_daemon, start_error, wait_for_daemon_exit, StartAction, StartEvent, StartFailure,
    StartStage, StopAction, StopLook, POLL_INTERVAL_MS, START_TIMEOUT_MS,
};

fn actions(events: &[StartEvent]) -> Vec<StartAction> {
    let mut stage = StartStage::FirstCheck;
    let mut actions: Vec<StartAction> = Vec::new();
    for event in events {
        let (next, action) = ensure_daemon(stage, *event);
        stage = next;
        actions.push(action);
    }
    actions
}

#[test]
fn a_running_daemon_is_left_alone() {
    assert_eq!(actions(&[StartEvent::Running(true)]), vec![StartAction::Succeed]);
    assert_eq!(
        actions(&[
            StartEvent::Running(false),
            StartEvent::LockAcquired,
            StartEvent::Running(true),
        ]),
        vec![StartAction::AcquireLock, StartAction::CheckRunning, StartAction::Succeed]
    );
}

#[test]
fn a_daemon_is_spawned_under_the_lock() {
    assert_eq!(
        actions(&[
            StartEvent::Running(false),
            StartEvent::LockAcquired,
            StartEvent::Running(false),
            StartEvent::CommandFound { requires_runtime_install: true },
            StartEvent::RuntimeInstalled(true),
            StartEvent::Spawned,
            StartEvent::DeadlinePassed(false),
            StartEvent::Running(false),
            StartEvent::DeadlinePassed(false),
            StartEvent::Running(true),
            StartEvent::Running(false),
        ]),
        vec![
            StartAction::AcquireLock,
            StartAction::CheckRunning,
            StartAction::FindCommand,
            StartAction::CheckRuntime,
            StartAction::Spawn,
            StartAction::CheckDeadline,
            StartAction::SleepThenCheckRunning,
            StartAction::CheckDeadline,
            StartAction::SleepThenCheckRunning,
            StartAction::Succeed,
            StartAction::Nothing,
        ]
    );
}

#[test]
fn a_start_can_fail() {
    assert_eq!(
        ensure_daemon(StartStage::CheckingRuntime, StartEvent::RuntimeInstalled(false)),
        (StartStage::Over, StartAction::Fail(StartFailure::MissingRuntime))
    );
    assert_eq!(
        ensure_daemon(StartStage::Polling, StartEvent::DeadlinePassed(true)),
        (StartStage::Over, StartAction::Fail(StartFailure::Timeout))
    );
    assert_eq!(
        ensure_daemon(
            StartStage::Finding,
            StartEvent::CommandFound { requires_runtime_install: false }
        ),
        (StartStage::Spawning, StartAction::Spawn)
    );
    assert_eq!(
        ensure_daemon(StartStage::Spawning, StartEvent::SpawnFailed),
        (StartStage::Over, StartAction::Fail(StartFailure::Spawn))
    );
    assert_eq!(
        start_error(StartFailure::MissingRuntime, "").to_string(),
        "Embedded daemon dependencies are missing. Run `dev-browser install` first."
    );
    assert_eq!(
        start_error(StartFailure::Timeout, "/l").to_string(),
        "Daemon failed to start within 5 seconds. Check the daemon log for details: /l"
    );
    assert_eq!(start_error(StartFailure::Spawn, "no node").to_string(), "no node");
    for failure in [StartFailure::MissingRuntime, StartFailure::Spawn, StartFailure::Timeout] {
        assert_eq!(classify_error_exit_code(&start_error(failure, "x")), 3);
    }
    assert_eq!((START_TIMEOUT_MS, POLL_INTERVAL_MS), (5_000, 100));
}

#[test]
fn the_exit_of_the_daemon_is_waited_for() {
    let look = |daemon_unreachable: bool, probe: SignalProbe| {
        let look = StopLook::Probed { daemon_unreachable, probe };
        wait_for_daemon_exit(7, look, 10, "/l")
    };
    assert!(matches!(look(true, SignalProbe::NoSuchProcess), StopAction::Stopped));
    assert!(matches!(look(true, SignalProbe::Delivered), StopAction::Sleep));
    assert!(matches!(look(true, SignalProbe::NotPermitted), StopAction::Sleep));
    assert!(matches!(look(false, SignalProbe::NoSuchProcess), StopAction::Sleep));
    match wait_for_daemon_exit(7, StopLook::DeadlinePassed, 10, "/l") {
        StopAction::Fail(error) => assert_eq!(
            error.to_string(),
            "Daemon failed to stop within 10 seconds. Check the daemon log for details: /l"
        ),
        _ => panic!("expected a failure"),
    }
}
