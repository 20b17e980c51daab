//! Trusted boundary to the operating system's process table, through the
//! sysinfo crate. Every result depends on the live process table, which
//! other processes mutate at any time, so no wrapper promises anything of
//! what it returns: the callers state what holds whatever came back.

use vstd::prelude::*;

verus! {

/// Metadata of a live process, read fresh from the process table.
#[derive(Clone, Debug)]
pub struct ProcMeta {
    /// The process name, as the table reports it.
    pub name: String,
    /// The executable path, empty if unavailable or permission-denied.
    pub exe_path: String,
}

/// Relies on sysinfo's `System::refresh_processes` and `System::process`:
/// after a fresh refresh of the whole table, returns the name and
/// executable path of the process with this id, or `None` if the table has
/// no such process. The result depends on the machine's live state, so
/// nothing is promised of it.
#[verifier::external_body]
pub(crate) fn query_process(pid: u32) -> Option<ProcMeta> {
    let mut system = sysinfo::System::new();
    system.refresh_processes(sysinfo::ProcessesToUpdate::All, true);
    system.process(sysinfo::Pid::from(pid as usize)).map(|p| ProcMeta {
        name: p.name().to_string_lossy().to_string(),
        exe_path: p.exe().map_or_else(String::new, |q| q.to_string_lossy().to_string()),
    })
}

/// Relies on sysinfo's `Process::kill_with` with the standard termination
/// signal: returns whether the signal was delivered (`false` if the process
/// is absent, the signal is unsupported on this platform, or the OS refused
/// delivery). Delivery does not guarantee that the target exits.
#[verifier::external_body]
pub(crate) fn send_graceful(pid: u32) -> bool {
    let mut system = sysinfo::System::new();
    system.refresh_processes(sysinfo::ProcessesToUpdate::All, true);
    match system.process(sysinfo::Pid::from(pid as usize)) {
        Some(p) => p.kill_with(sysinfo::Signal::Term).unwrap_or(false),
        None => false,
    }
}

/// Relies on sysinfo's `Process::kill_with` with the forced, unconditional
/// termination signal: returns whether the signal was delivered (`false`
/// if the process is absent or the OS refused delivery, as under
/// insufficient privilege).
#[verifier::external_body]
pub(crate) fn send_forced(pid: u32) -> bool {
    let mut system = sysinfo::System::new();
    system.refresh_processes(sysinfo::ProcessesToUpdate::All, true);
    match system.process(sysinfo::Pid::from(pid as usize)) {
        Some(p) => p.kill_with(sysinfo::Signal::Kill).unwrap_or(false),
        None => false,
    }
}

} // verus!
