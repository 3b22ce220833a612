use nanobot_supervisor::start::{
    StartAction, StartEvent, StartFlow, StartOutcome, StartPhase, RECHECK_DELAY_MS,
    SETTLE_DELAY_MS,
};
use nanobot_supervisor::supervisor::{
    format_uptime, reconcile_status, reconstruct_manager, start_instant, stop_outcome,
    uptime_seconds, ProcessManager, StopOutcome, Supervisor,
};

fn located(flow: &mut StartFlow, sup: &mut Supervisor) -> StartAction {
    flow.step(StartEvent::Located(Some(String::from("/usr/local/bin/nanobot"))), false, sup, 0)
}

#[test]
fn missing_worker_fails_with_not_found() {
    let mut sup = Supervisor::new();
    let (mut flow, first) = StartFlow::new(18790, false);
    assert!(matches!(first, StartAction::Locate));
    let a = flow.step(StartEvent::Located(None), false, &mut sup, 0);
    match a {
        StartAction::Finish(o) => {
            assert!(matches!(o, StartOutcome::CommandNotFound));
            assert_eq!(o.status(), "failed");
            assert!(o.message().contains("not found"));
        }
        _ => panic!("expected the start to finish"),
    }
    assert_eq!(flow.phase, StartPhase::Done);
    assert!(sup.process.is_none());
}

#[test]
fn running_worker_is_not_started_again() {
    let mut sup = Supervisor::new();
    let (mut flow, first) = StartFlow::new(18790, true);
    match first {
        StartAction::Finish(o) => {
            assert!(matches!(o, StartOutcome::AlreadyRunning));
            assert_eq!(o.status(), "already_running");
        }
        _ => panic!("expected the start to finish"),
    }
    let next = flow.step(StartEvent::Launched(99), true, &mut sup, 0);
    assert!(matches!(next, StartAction::Finish(StartOutcome::Interrupted)));
    assert!(sup.process.is_none());
}

#[test]
fn worker_that_settles_is_started() {
    let mut sup = Supervisor::new();
    let (mut flow, _) = StartFlow::new(18790, false);
    match located(&mut flow, &mut sup) {
        StartAction::SelfTest(cmd) => assert_eq!(cmd, "/usr/local/bin/nanobot"),
        _ => panic!("expected a self test"),
    }
    match flow.step(StartEvent::SelfTestPassed, false, &mut sup, 0) {
        StartAction::Launch { command, port } => {
            assert_eq!(command, "/usr/local/bin/nanobot");
            assert_eq!(port, 18790);
        }
        _ => panic!("expected a launch"),
    }
    match flow.step(StartEvent::Launched(4242), false, &mut sup, 0) {
        StartAction::Wait(ms) => assert_eq!(ms, SETTLE_DELAY_MS),
        _ => panic!("expected a wait"),
    }
    assert_eq!(SETTLE_DELAY_MS, 1500);
    assert!(matches!(flow.step(StartEvent::Waited, false, &mut sup, 0), StartAction::QueryChild));
    match flow.step(StartEvent::ChildAlive, true, &mut sup, 7_000) {
        StartAction::Finish(o) => {
            assert!(matches!(o, StartOutcome::Started { port: 18790, pid: 4242 }));
            assert_eq!(o.status(), "started");
            assert_eq!(o.message(), "nanobot started on port 18790");
        }
        _ => panic!("expected the start to finish"),
    }
    let m = sup.process.as_ref().unwrap();
    assert!(m.is_running());
    assert_eq!(m.get_port(), 18790);
    assert_eq!(m.get_start_time(), Some(7_000));
}

#[test]
fn slow_worker_gets_a_second_look() {
    let mut sup = Supervisor::new();
    let (mut flow, _) = StartFlow::new(18790, false);
    located(&mut flow, &mut sup);
    flow.step(StartEvent::SelfTestPassed, false, &mut sup, 0);
    flow.step(StartEvent::Launched(7), false, &mut sup, 0);
    flow.step(StartEvent::Waited, false, &mut sup, 0);
    match flow.step(StartEvent::ChildAlive, false, &mut sup, 0) {
        StartAction::Wait(ms) => assert_eq!(ms, RECHECK_DELAY_MS),
        _ => panic!("expected a wait"),
    }
    assert_eq!(RECHECK_DELAY_MS, 500);
    match flow.step(StartEvent::Waited, false, &mut sup, 0) {
        StartAction::Finish(o) => {
            assert!(matches!(o, StartOutcome::NotReady));
            assert_eq!(o.status(), "failed");
        }
        _ => panic!("expected the start to finish"),
    }
    assert!(sup.process.is_none());
}

#[test]
fn crash_reports_the_log_output() {
    let mut sup = Supervisor::new();
    let (mut flow, _) = StartFlow::new(18790, false);
    located(&mut flow, &mut sup);
    flow.step(StartEvent::SelfTestPassed, false, &mut sup, 0);
    flow.step(StartEvent::Launched(7), false, &mut sup, 0);
    flow.step(StartEvent::Waited, false, &mut sup, 0);
    let output = b"Traceback (most recent call last):\nValueError: missing API key\n\n".to_vec();
    match flow.step(StartEvent::ChildExited { code: Some(1), output }, false, &mut sup, 0) {
        StartAction::Finish(o) => {
            assert_eq!(o.status(), "failed");
            let m = o.message();
            assert!(m.contains("missing API key"));
            assert!(m.starts_with("nanobot exited right after starting: Traceback"));
            assert!(m.ends_with("missing API key"));
            if let StartOutcome::ExitedEarly { exit_code, .. } = o {
                assert_eq!(exit_code, Some(1));
            } else {
                panic!("expected an early exit");
            }
        }
        _ => panic!("expected the start to finish"),
    }
}

#[test]
fn failed_self_test_reports_stderr() {
    let mut sup = Supervisor::new();
    let (mut flow, _) = StartFlow::new(18790, false);
    located(&mut flow, &mut sup);
    match flow.step(StartEvent::SelfTestFailed(String::from("boom")), false, &mut sup, 0) {
        StartAction::Finish(o) => assert_eq!(o.message(), "nanobot command failed: boom"),
        _ => panic!("expected the start to finish"),
    }
}

#[test]
fn unrunnable_self_test_reports_error() {
    let mut sup = Supervisor::new();
    let (mut flow, _) = StartFlow::new(18790, false);
    located(&mut flow, &mut sup);
    match flow.step(StartEvent::SelfTestUnrunnable(String::from("denied")), false, &mut sup, 0) {
        StartAction::Finish(o) => {
            assert_eq!(o.message(), "cannot execute nanobot command: denied")
        }
        _ => panic!("expected the start to finish"),
    }
}

#[test]
fn spawn_failure_is_reported() {
    let mut sup = Supervisor::new();
    let (mut flow, _) = StartFlow::new(18790, false);
    located(&mut flow, &mut sup);
    flow.step(StartEvent::SelfTestPassed, false, &mut sup, 0);
    match flow.step(StartEvent::LaunchFailed(String::from("no such file")), false, &mut sup, 0) {
        StartAction::Finish(o) => {
            assert_eq!(o.status(), "failed");
            assert_eq!(o.message(), "failed to start nanobot: no such file");
        }
        _ => panic!("expected the start to finish"),
    }
}

#[test]
fn child_query_failure_is_reported() {
    let mut sup = Supervisor::new();
    let (mut flow, _) = StartFlow::new(18790, false);
    located(&mut flow, &mut sup);
    flow.step(StartEvent::SelfTestPassed, false, &mut sup, 0);
    flow.step(StartEvent::Launched(7), false, &mut sup, 0);
    flow.step(StartEvent::Waited, false, &mut sup, 0);
    match flow.step(StartEvent::ChildQueryFailed(String::from("gone")), false, &mut sup, 0) {
        StartAction::Finish(o) => {
            assert_eq!(o.message(), "failed to check the process state: gone")
        }
        _ => panic!("expected the start to finish"),
    }
}

#[test]
fn out_of_order_event_interrupts() {
    let mut sup = Supervisor::new();
    let (mut flow, _) = StartFlow::new(18790, false);
    match flow.step(StartEvent::Waited, true, &mut sup, 0) {
        StartAction::Finish(o) => {
            assert!(matches!(o, StartOutcome::Interrupted));
            assert_eq!(o.message(), "start interrupted");
        }
        _ => panic!("expected the start to finish"),
    }
    assert_eq!(flow.phase, StartPhase::Done);
}

#[test]
fn stop_outcomes() {
    assert_eq!(stop_outcome(false, 0), StopOutcome::NotRunning);
    assert_eq!(stop_outcome(false, 3), StopOutcome::NotRunning);
    assert_eq!(stop_outcome(true, 2), StopOutcome::Stopped);
    assert_eq!(stop_outcome(true, 0), StopOutcome::NotFound);
    assert_eq!(StopOutcome::NotRunning.status(), "not_running");
    assert_eq!(StopOutcome::Stopped.status(), "stopped");
    assert_eq!(StopOutcome::NotFound.status(), "not_found");
    assert_eq!(StopOutcome::NotRunning.message(), "nanobot is not running");
}

#[test]
fn manager_accessors() {
    let mut m = ProcessManager::new(18790);
    assert!(!m.is_running());
    assert_eq!(m.get_port(), 18790);
    assert_eq!(m.get_start_time(), None);
    m.set_running(true);
    m.set_start_time(-5);
    m.set_process_start_timestamp(1_700_000_000);
    assert!(m.is_running());
    assert_eq!(m.get_start_time(), Some(-5));
    assert_eq!(m.process_start_timestamp, Some(1_700_000_000));
}

#[test]
fn rebuilt_start_keeps_uptime() {
    // Started at wall second 1000, now wall second 1100, monotonic 10 s.
    let s = start_instant(10_000, 1_000, 1_100);
    assert_eq!(s, 10_000 - 100_000);
    assert_eq!(uptime_seconds(s, 10_000), 100);
    assert_eq!(start_instant(10_000, 1_100, 1_000), 10_000);
    assert_eq!(start_instant(i64::MIN + 5, 0, 1), i64::MIN + 5);
}

#[test]
fn rebuilt_record() {
    let m = reconstruct_manager(18801, Some(1_000), 1_060, 120_000);
    assert!(m.is_running());
    assert_eq!(m.get_port(), 18801);
    assert_eq!(m.get_start_time(), Some(60_000));
    assert_eq!(m.process_start_timestamp, Some(1_000));
    let n = reconstruct_manager(18790, None, 1_060, 120_000);
    assert_eq!(n.get_start_time(), Some(120_000));
}

#[test]
fn status_rebuilds_missing_record() {
    let mut process: Option<ProcessManager> = None;
    let r = reconcile_status(&mut process, true, 18801, Some(1_000), 4_723, 5_000_000);
    assert!(r.running);
    assert_eq!(r.port, Some(18801));
    assert_eq!(r.uptime.as_deref(), Some("1h 2m 3s"));
    assert!(process.as_ref().unwrap().is_running());
}

#[test]
fn status_when_stopped_marks_record() {
    let mut process = Some(ProcessManager::new(18790));
    process.as_mut().unwrap().set_running(true);
    let r = reconcile_status(&mut process, false, 1, None, 0, 0);
    assert!(!r.running);
    assert_eq!(r.port, Some(18790));
    assert_eq!(r.uptime, None);
    assert!(!process.as_ref().unwrap().is_running());
    let mut none: Option<ProcessManager> = None;
    let r2 = reconcile_status(&mut none, false, 1, None, 0, 0);
    assert_eq!(r2.port, None);
    assert!(none.is_none());
}

#[test]
fn uptime_text_forms() {
    assert_eq!(format_uptime(3723), "1h 2m 3s");
    assert_eq!(format_uptime(3600), "1h 0m 0s");
    assert_eq!(format_uptime(125), "2m 5s");
    assert_eq!(format_uptime(7), "7s");
    assert_eq!(format_uptime(0), "0s");
    assert_eq!(uptime_seconds(0, 1_999), 1);
    assert_eq!(uptime_seconds(5_000, 1_000), 0);
}

use nanobot_supervisor::cache::ProcessCheckCache;
use nanobot_supervisor::supervisor::get_status;

#[test]
fn stopped_record_is_rebuilt_when_worker_runs_again() {
    let mut old = ProcessManager::new(18790);
    old.set_start_time(5);
    let mut process = Some(old);
    let r = reconcile_status(&mut process, true, 18801, Some(1_000), 1_010, 50_000);
    let m = process.as_ref().unwrap();
    assert!(m.is_running());
    assert_eq!(m.get_port(), 18801);
    assert_eq!(m.get_start_time(), Some(40_000));
    assert_eq!(r.port, Some(18801));
    assert_eq!(r.uptime.as_deref(), Some("10s"));
}

#[test]
fn running_record_is_kept() {
    let mut m = ProcessManager::new(18790);
    m.set_running(true);
    m.set_start_time(0);
    let mut process = Some(m);
    let r = reconcile_status(&mut process, true, 1, Some(1_000), 1_010, 3_000);
    assert_eq!(r.port, Some(18790));
    assert_eq!(r.uptime.as_deref(), Some("3s"));
}

#[test]
fn young_cached_answer_is_used_by_status() {
    let mut sup = Supervisor::new();
    let mut c = ProcessCheckCache::new();
    c.record(true, 10_000);
    sup.cache = Some(c);
    // No worker runs here: only the cached answer can say running.
    let r = get_status(&mut sup, 10_500, 1_700_000_000);
    assert!(r.running);
    assert_eq!(sup.cache.as_ref().unwrap().last_update, Some(10_000));
    assert!(sup.process.as_ref().unwrap().is_running());
}

#[test]
fn old_cached_answer_is_rescanned_by_status() {
    let mut sup = Supervisor::new();
    let mut c = ProcessCheckCache::new();
    c.record(true, 10_000);
    sup.cache = Some(c);
    let r = get_status(&mut sup, 11_001, 1_700_000_000);
    assert!(!r.running);
    assert_eq!(sup.cache.as_ref().unwrap().last_update, Some(11_001));
    assert_eq!(r.uptime, None);
}
