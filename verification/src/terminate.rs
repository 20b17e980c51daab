//! The termination controller: look the process up, optionally attempt
//! graceful termination, wait a bounded grace interval, re-check, and
//! escalate to forced termination. The grace wait must not block the
//! embedding runtime, so the controller returns a `GraceWait` step and the
//! caller resumes after sleeping; every decision between the
//! process-table answers is a verified function of those answers.

use vstd::prelude::*;
use crate::records::KillError;
use crate::records::KillResult;
use crate::sys;
use crate::listing::body_of_output_kept;
use crate::listing::line_pid;
use crate::listing::list_ports_from_output;

verus! {

/// How long a gracefully signalled process is given to exit, in
/// milliseconds.
pub const GRACE_WAIT_MS: u64 = 800;

/// What the controller does first, given whether the process exists and
/// whether forced termination was requested up front.
#[derive(Clone, Copy, Debug, PartialEq, Eq, Structural)]
pub enum StartAction {
    /// The process id is absent from the table: a hard error, no result.
    ReportNotFound,
    /// Attempt the graceful signal first.
    TryGraceful,
    /// Go directly to the forced signal, with no graceful attempt and no
    /// grace wait.
    ForceNow,
}

/// What the controller does after the grace wait, given whether the
/// process is still in the table.
#[derive(Clone, Copy, Debug, PartialEq, Eq, Structural)]
pub enum RecheckAction {
    /// The process is gone: graceful termination succeeded.
    GracefulSuccess,
    /// The process survived the window: escalate to the forced signal.
    Escalate,
}

/// The first decision of the protocol: a missing process is a hard error
/// whatever `force` says; otherwise `force` decides whether the graceful
/// attempt is skipped.
pub fn start_decision(exists: bool, force: bool) -> (r: StartAction)
    ensures
        !exists ==> r == StartAction::ReportNotFound,
        exists && force ==> r == StartAction::ForceNow,
        exists && !force ==> r == StartAction::TryGraceful,
{
    if !exists {
        StartAction::ReportNotFound
    } else if force {
        StartAction::ForceNow
    } else {
        StartAction::TryGraceful
    }
}

/// The decision after the grace wait: a process that left the table within
/// the window is a graceful success; one that survived is escalated.
pub fn recheck_decision(still_exists: bool) -> (r: RecheckAction)
    ensures
        !still_exists ==> r == RecheckAction::GracefulSuccess,
        still_exists ==> r == RecheckAction::Escalate,
{
    if still_exists {
        RecheckAction::Escalate
    } else {
        RecheckAction::GracefulSuccess
    }
}

/// What the controller does with the answer to the graceful signal.
#[derive(Clone, Copy, Debug, PartialEq, Eq, Structural)]
pub enum GracefulSendAction {
    /// The signal was delivered: give the process the grace window.
    WaitForExit,
    /// The send itself failed: escalate at once, with no wait.
    EscalateNow,
}

/// The decision on the graceful signal's delivery answer: a delivered
/// signal earns the grace wait; a failed send skips the wait and
/// escalates immediately to the forced signal.
pub fn graceful_send_decision(delivered: bool) -> (r: GracefulSendAction)
    ensures
        delivered ==> r == GracefulSendAction::WaitForExit,
        !delivered ==> r == GracefulSendAction::EscalateNow,
{
    if delivered {
        GracefulSendAction::WaitForExit
    } else {
        GracefulSendAction::EscalateNow
    }
}

/// The outcome of the forced signal: confirmed delivery is success;
/// refused delivery is a hard permission error, not a failed result.
pub fn forced_outcome(delivered: bool) -> (r: Result<KillResult, KillError>)
    ensures
        delivered ==> (r matches Ok(k) && k.success == true && k.message@
            == "Process force terminated"@),
        !delivered ==> r == Err::<KillResult, KillError>(KillError::PermissionDenied),
{
    if delivered {
        Ok(KillResult { success: true, message: String::from_str("Process force terminated") })
    } else {
        Err(KillError::PermissionDenied)
    }
}

/// The result reported when the process left the table within the grace
/// window.
pub fn graceful_outcome() -> (r: KillResult)
    ensures
        r.success == true,
        r.message@ == "Process terminated gracefully"@,
{
    KillResult { success: true, message: String::from_str("Process terminated gracefully") }
}

/// Sends the forced signal and reports its outcome. Whether the OS
/// confirms delivery depends on the live process table and privileges, so
/// only the shape of each outcome is stated.
pub fn force_kill(pid: u32) -> (r: Result<KillResult, KillError>)
    ensures
        r is Err ==> r == Err::<KillResult, KillError>(KillError::PermissionDenied),
        r matches Ok(k) ==> k.success == true && k.message@ == "Process force terminated"@,
{
    forced_outcome(sys::send_forced(pid))
}

/// Where a termination attempt stands after its synchronous first phase.
#[derive(Debug)]
pub enum KillStep {
    /// The attempt ran to a result (or a hard error) with no wait.
    Finished(Result<KillResult, KillError>),
    /// The graceful signal was delivered: the caller must wait `wait_ms`
    /// milliseconds without blocking other work, then resume.
    GraceWait { pid: u32, wait_ms: u64 },
}

/// Begins a termination attempt. A forced attempt never takes the
/// graceful path and never waits; a graceful attempt whose signal could
/// not be sent escalates immediately, also without waiting.
pub fn kill_process_start(pid: u32, force: bool) -> (r: KillStep)
    ensures
        force ==> r is Finished,
        r matches KillStep::GraceWait { pid: p, wait_ms: w } ==> p == pid && w == GRACE_WAIT_MS
            && !force,
        r matches KillStep::Finished(res) ==> (res is Err ==> res == Err::<
            KillResult,
            KillError,
        >(KillError::NotFound) || res == Err::<KillResult, KillError>(KillError::PermissionDenied)),
        r matches KillStep::Finished(res) ==> (res matches Ok(k) ==> k.success == true
            && k.message@ == "Process force terminated"@),
{
    match start_decision(sys::query_process(pid).is_some(), force) {
        StartAction::ReportNotFound => KillStep::Finished(Err(KillError::NotFound)),
        StartAction::ForceNow => KillStep::Finished(force_kill(pid)),
        StartAction::TryGraceful => {
            match graceful_send_decision(sys::send_graceful(pid)) {
                GracefulSendAction::WaitForExit => KillStep::GraceWait {
                    pid,
                    wait_ms: GRACE_WAIT_MS,
                },
                GracefulSendAction::EscalateNow => KillStep::Finished(force_kill(pid)),
            }
        },
    }
}

/// Resumes a termination attempt after the grace wait: re-checks the
/// table, reports graceful success if the process is gone, and otherwise
/// escalates to the forced signal.
pub fn kill_process_resume(pid: u32) -> (r: Result<KillResult, KillError>)
    ensures
        r is Err ==> r == Err::<KillResult, KillError>(KillError::PermissionDenied),
        r matches Ok(k) ==> k.success == true && (k.message@ == "Process terminated gracefully"@
            || k.message@ == "Process force terminated"@),
{
    match recheck_decision(sys::query_process(pid).is_some()) {
        RecheckAction::GracefulSuccess => Ok(graceful_outcome()),
        RecheckAction::Escalate => force_kill(pid),
    }
}

/// Begins a termination attempt against whatever listens on `port`, given
/// the listing tool's output for that port. The attempt fails with
/// `NoListener` exactly when the listening-filtered listing is empty;
/// otherwise the first record's process is targeted — an artifact of
/// listing order — and the outcome is the termination controller's,
/// unchanged.
pub fn kill_by_port_start(port: u16, listing_output: &str, force: bool) -> (r: KillStep)
    ensures
        body_of_output_kept(listing_output@).len() == 0 ==> r == KillStep::Finished(
            Err::<KillResult, KillError>(KillError::NoListener { port }),
        ),
        body_of_output_kept(listing_output@).len() > 0 ==> (r matches KillStep::GraceWait {
            pid: p,
            wait_ms: w,
        } ==> line_pid(body_of_output_kept(listing_output@)[0]) == Some(p) && w == GRACE_WAIT_MS),
        body_of_output_kept(listing_output@).len() > 0 ==> (r matches KillStep::Finished(res)
            ==> (res is Err ==> res == Err::<KillResult, KillError>(KillError::NotFound) || res
            == Err::<KillResult, KillError>(KillError::PermissionDenied))),
        body_of_output_kept(listing_output@).len() > 0 ==> (r matches KillStep::Finished(res)
            ==> (res matches Ok(k) ==> k.success == true && k.message@
            == "Process force terminated"@)),
        force ==> r is Finished,
{
    let infos = list_ports_from_output(port, listing_output, true);
    if infos.len() == 0 {
        KillStep::Finished(Err(KillError::NoListener { port }))
    } else {
        kill_process_start(infos[0].pid, force)
    }
}

} // verus!
