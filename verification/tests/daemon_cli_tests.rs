use github_release_collector::cli::{found_release, show_target, ShowTarget};
use github_release_collector::daemon::{
    parse_pid, read_pid, reload_result, status_report, KillOutcome, StartAction, StartEvent, StartTask,
    StopAction, StopEvent, StopTask, SyncSchedule, POLL_SECONDS, STOP_WAIT_ATTEMPTS,
};
use github_release_collector::Error;

#[test]
fn pid_file_text() {
    assert_eq!(parse_pid("1234\n"), Some(1234));
    assert_eq!(parse_pid("  77 "), Some(77));
    assert_eq!(parse_pid("0"), Some(0));
    assert_eq!(parse_pid(""), None);
    assert_eq!(parse_pid("abc"), None);
    assert_eq!(parse_pid("4294967296"), None);
    assert_eq!(parse_pid("-5"), None);
}

#[test]
fn schedule_runs_each_kind_after_its_interval() {
    let mut s = SyncSchedule::new(3600, 86400, 0);
    let d = s.poll(60);
    assert!(!d.incremental && !d.full);
    let d = s.poll(3600);
    assert!(d.incremental && !d.full);
    let d = s.poll(3660);
    assert!(!d.incremental);
    let d = s.poll(7200);
    assert!(d.incremental);
    let d = s.poll(86400);
    assert!(d.incremental && d.full);
    let d = s.poll(86460);
    assert!(!d.incremental && !d.full);
    assert_eq!(POLL_SECONDS, 60);
    assert_eq!(STOP_WAIT_ATTEMPTS, 10);
}

#[test]
fn zero_interval_runs_every_time() {
    let mut s = SyncSchedule::new(0, 10, 5);
    assert!(s.poll(5).incremental);
    assert!(s.poll(5).incremental);
}

#[test]
fn show_picks_id_then_tag() {
    assert!(matches!(show_target(Some(3), Some("v1".to_string())), Ok(ShowTarget::ById(3))));
    assert!(matches!(show_target(None, Some("v1".to_string())), Ok(ShowTarget::ByTag(ref t)) if t == "v1"));
    match show_target(None, None) {
        Err(e) => assert_eq!(e.message(), "Not found: Either --id or --tag required"),
        Ok(_) => panic!("expected an error"),
    }
    match found_release(None) {
        Err(Error::NotFound(m)) => assert_eq!(m, "Release not found"),
        _ => panic!("expected an error"),
    }
}

#[test]
fn error_messages() {
    let cases = [
        (Error::Database("d".to_string()), "Database error: d"),
        (Error::Http("h".to_string()), "HTTP error: h"),
        (Error::Io("i".to_string()), "IO error: i"),
        (Error::Json("j".to_string()), "JSON error: j"),
        (Error::Config("c".to_string()), "Configuration error: c"),
        (Error::GithubApi("g".to_string()), "GitHub API error: g"),
        (Error::NotFound("n".to_string()), "Not found: n"),
        (Error::Daemon("p".to_string()), "Daemon error: p"),
        (Error::Sync("s".to_string()), "Sync error: s"),
    ];
    for (e, m) in cases {
        assert_eq!(e.message(), m);
    }
}

fn daemon_message(e: Error) -> String {
    match e {
        Error::Daemon(m) => m,
        other => panic!("unexpected {:?}", other),
    }
}

#[test]
fn pid_file_must_hold_a_pid() {
    assert_eq!(read_pid(" 42\n").unwrap(), 42);
    assert_eq!(daemon_message(read_pid("x").unwrap_err()), "Invalid PID file");
}

#[test]
fn stop_without_pid_file_fails() {
    let mut t = StopTask::new();
    match t.step(StopEvent::PidFileMissing) {
        StopAction::Finish(Err(e)) => assert_eq!(daemon_message(e), "PID file not found. Is daemon running?"),
        other => panic!("unexpected {:?}", other),
    }
    assert!(t.is_done());
    assert!(!t.accepts(&StopEvent::Waited));
}

#[test]
fn stop_with_bad_pid_file_fails() {
    let mut t = StopTask::new();
    match t.step(StopEvent::PidFileRead("nope".to_string())) {
        StopAction::Finish(Err(e)) => assert_eq!(daemon_message(e), "Invalid PID file"),
        other => panic!("unexpected {:?}", other),
    }
}

#[test]
fn stop_reports_undelivered_signal() {
    let mut t = StopTask::new();
    assert!(matches!(t.step(StopEvent::PidFileRead("12\n".to_string())), StopAction::Signal(12)));
    match t.step(StopEvent::Signalled(KillOutcome::Failed("no such process".to_string()))) {
        StopAction::Finish(Err(e)) => assert_eq!(daemon_message(e), "Failed to stop daemon: no such process"),
        other => panic!("unexpected {:?}", other),
    }
    let mut t = StopTask::new();
    t.step(StopEvent::PidFileRead("12".to_string()));
    match t.step(StopEvent::Signalled(KillOutcome::NotRun("not found".to_string()))) {
        StopAction::Finish(Err(e)) => assert_eq!(daemon_message(e), "Failed to execute kill: not found"),
        other => panic!("unexpected {:?}", other),
    }
}

#[test]
fn stop_ends_when_process_is_gone() {
    let mut t = StopTask::new();
    t.step(StopEvent::PidFileRead("12".to_string()));
    assert!(matches!(t.step(StopEvent::Signalled(KillOutcome::Sent)), StopAction::Probe(12)));
    assert!(matches!(t.step(StopEvent::Probed(true)), StopAction::Wait));
    assert!(matches!(t.step(StopEvent::Waited), StopAction::Probe(12)));
    assert!(matches!(t.step(StopEvent::Probed(false)), StopAction::RemovePidFile));
    assert!(matches!(t.step(StopEvent::PidFileRemoved), StopAction::Finish(Ok(()))));
    assert!(t.is_done());
}

#[test]
fn stop_probes_at_most_the_wait_attempts() {
    let mut t = StopTask::new();
    t.step(StopEvent::PidFileRead("12".to_string()));
    let mut action = t.step(StopEvent::Signalled(KillOutcome::Sent));
    let mut probes = 0;
    loop {
        action = match action {
            StopAction::Probe(_) => {
                probes += 1;
                t.step(StopEvent::Probed(true))
            }
            StopAction::Wait => t.step(StopEvent::Waited),
            StopAction::RemovePidFile => break,
            other => panic!("unexpected {:?}", other),
        };
    }
    assert_eq!(probes, STOP_WAIT_ATTEMPTS);
    assert!(matches!(t.step(StopEvent::PidFileRemoved), StopAction::Finish(Ok(()))));
}

#[test]
fn start_refuses_a_running_daemon() {
    let mut t = StartTask::new();
    assert!(matches!(t.step(StartEvent::PidFileRead("321\n".to_string())), StartAction::Probe(321)));
    match t.step(StartEvent::Probed(true)) {
        StartAction::Fail(e) => assert_eq!(daemon_message(e), "Daemon is already running with PID 321"),
        other => panic!("unexpected {:?}", other),
    }
    assert!(t.is_done());
}

#[test]
fn start_replaces_a_stale_pid_file() {
    for content in ["0", "garbage"] {
        let mut t = StartTask::new();
        assert!(matches!(t.step(StartEvent::PidFileRead(content.to_string())), StartAction::RemovePidFile));
        assert!(matches!(t.step(StartEvent::PidFileRemoved), StartAction::Spawn));
        assert!(matches!(t.step(StartEvent::Spawned(Ok(99))), StartAction::WritePidFile(99)));
    }
    let mut t = StartTask::new();
    t.step(StartEvent::PidFileRead("5".to_string()));
    assert!(matches!(t.step(StartEvent::Probed(false)), StartAction::RemovePidFile));
    let mut t = StartTask::new();
    assert!(matches!(t.step(StartEvent::PidFileUnreadable), StartAction::RemovePidFile));
}

#[test]
fn start_without_pid_file_spawns() {
    let mut t = StartTask::new();
    assert!(matches!(t.step(StartEvent::PidFileMissing), StartAction::Spawn));
    match t.step(StartEvent::Spawned(Err("denied".to_string()))) {
        StartAction::Fail(e) => assert_eq!(daemon_message(e), "Failed to start daemon: denied"),
        other => panic!("unexpected {:?}", other),
    }
    assert!(!t.accepts(&StartEvent::PidFileMissing));
}

#[test]
fn reload_outcomes() {
    assert!(reload_result(KillOutcome::Sent).is_ok());
    assert_eq!(daemon_message(reload_result(KillOutcome::Failed("bad".to_string())).unwrap_err()), "Failed to reload daemon: bad");
    assert_eq!(daemon_message(reload_result(KillOutcome::NotRun("x".to_string())).unwrap_err()), "Failed to execute kill: x");
}

#[test]
fn status_lines() {
    assert_eq!(status_report(77, true), ("Daemon is running (PID: 77)".to_string(), false));
    assert_eq!(status_report(77, false), ("Daemon is not running (stale PID file)".to_string(), true));
}

#[test]
fn reload_takes_new_intervals_and_keeps_last_runs() {
    let mut s = SyncSchedule::new(3600, 86400, 0);
    let d = s.poll(100);
    assert!(!d.incremental && !d.full);
    s.reload(60, 120);
    let d = s.poll(100);
    assert!(d.incremental && !d.full);
    let d = s.poll(130);
    assert!(!d.incremental && d.full);
}
