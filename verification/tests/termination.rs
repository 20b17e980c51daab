use portkill::records::KillError;
use portkill::terminate::forced_outcome;
use portkill::terminate::graceful_outcome;
use portkill::terminate::graceful_send_decision;
use portkill::terminate::GracefulSendAction;
use portkill::terminate::kill_by_port_start;
use portkill::terminate::kill_process_resume;
use portkill::terminate::kill_process_start;
use portkill::terminate::recheck_decision;
use portkill::terminate::start_decision;
use portkill::terminate::KillStep;
use portkill::terminate::RecheckAction;
use portkill::terminate::StartAction;
use portkill::terminate::GRACE_WAIT_MS;

/// A process id far above any live one on this machine.
const ABSENT_PID: u32 = 4_000_000_000;

const HEADER: &str = "COMMAND PID USER FD TYPE DEVICE SIZE/OFF NODE NAME";

#[test]
fn start_decisions() {
    assert_eq!(start_decision(false, false), StartAction::ReportNotFound);
    assert_eq!(start_decision(false, true), StartAction::ReportNotFound);
    assert_eq!(start_decision(true, true), StartAction::ForceNow);
    assert_eq!(start_decision(true, false), StartAction::TryGraceful);
}

#[test]
fn recheck_decisions() {
    assert_eq!(recheck_decision(false), RecheckAction::GracefulSuccess);
    assert_eq!(recheck_decision(true), RecheckAction::Escalate);
}

#[test]
fn graceful_send_decisions() {
    assert_eq!(graceful_send_decision(true), GracefulSendAction::WaitForExit);
    assert_eq!(graceful_send_decision(false), GracefulSendAction::EscalateNow);
}

#[test]
fn forced_outcomes() {
    let ok = forced_outcome(true).expect("delivery is success");
    assert!(ok.success);
    assert_eq!(ok.message, "Process force terminated");
    let err = forced_outcome(false).expect_err("refusal is a hard error");
    assert_eq!(err, KillError::PermissionDenied);
}

#[test]
fn graceful_success_message() {
    let r = graceful_outcome();
    assert!(r.success);
    assert_eq!(r.message, "Process terminated gracefully");
}

#[test]
fn killing_a_missing_process_is_not_found_whatever_force_says() {
    match kill_process_start(ABSENT_PID, false) {
        KillStep::Finished(Err(e)) => assert_eq!(e, KillError::NotFound),
        _ => panic!("expected a NotFound error"),
    }
    match kill_process_start(ABSENT_PID, true) {
        KillStep::Finished(Err(e)) => assert_eq!(e, KillError::NotFound),
        _ => panic!("expected a NotFound error"),
    }
}

#[test]
fn resume_reports_graceful_success_once_the_process_is_gone() {
    let r = kill_process_resume(ABSENT_PID).expect("a vanished process is a graceful success");
    assert!(r.success);
    assert_eq!(r.message, "Process terminated gracefully");
}

#[test]
fn kill_by_port_with_no_listener_is_not_found() {
    match kill_by_port_start(8080, "", false) {
        KillStep::Finished(Err(e)) => {
            assert_eq!(e, KillError::NoListener { port: 8080 });
            assert_eq!(e.message(), "No process found listening on port 8080");
        },
        _ => panic!("expected a NoListener error"),
    }
    match kill_by_port_start(8080, HEADER, true) {
        KillStep::Finished(Err(e)) => assert_eq!(e, KillError::NoListener { port: 8080 }),
        _ => panic!("expected a NoListener error"),
    }
}

#[test]
fn kill_by_port_targets_the_first_listed_listener() {
    let out = format!(
        "{}\nstale 4000000000 root 3u IPv4 0x0 0t0 TCP *:8080 (LISTEN)\n",
        HEADER
    );
    match kill_by_port_start(8080, &out, false) {
        KillStep::Finished(Err(e)) => assert_eq!(e, KillError::NotFound),
        _ => panic!("the listed process is long gone, so the kill reports NotFound"),
    }
}

#[test]
fn error_messages() {
    assert_eq!(KillError::NotFound.message(), "Process not found");
    assert_eq!(
        KillError::PermissionDenied.message(),
        "Failed to terminate process - permission denied. Try running with elevated privileges."
    );
}

#[test]
fn grace_wait_is_the_documented_interval() {
    assert_eq!(GRACE_WAIT_MS, 800);
}
