//! Best-effort source classification: ordered substring heuristics over an
//! executable path, labelling the subsystem that likely owns the process.

use vstd::prelude::*;
use crate::text::has_substr;
use crate::text::find_substr;
use crate::sys;
use crate::sys::ProcMeta;

verus! {

/// The classification of an executable path: the first matching heuristic
/// wins, and an empty or unavailable path falls through to "unknown".
pub open spec fn classify_spec(path: Seq<char>) -> Seq<char> {
    if has_substr(path, "docker"@) || has_substr(path, "containerd"@) {
        "docker"@
    } else if has_substr(path, "systemd"@) {
        "systemd"@
    } else if has_substr(path, "launchd"@) {
        "launchd"@
    } else if has_substr(path, "brew"@) {
        "brew"@
    } else {
        "unknown"@
    }
}

/// The labels the classifier can produce.
pub open spec fn is_source_label(s: Seq<char>) -> bool {
    s == "docker"@ || s == "systemd"@ || s == "launchd"@ || s == "brew"@ || s == "unknown"@
}

/// Classifies an executable path. The result is a function of the path
/// alone: identical paths classify identically, on every call.
pub fn classify_path(path: &str) -> (r: String)
    ensures
        r@ == classify_spec(path@),
        is_source_label(r@),
{
    if find_substr(path, "docker") || find_substr(path, "containerd") {
        String::from_str("docker")
    } else if find_substr(path, "systemd") {
        String::from_str("systemd")
    } else if find_substr(path, "launchd") {
        String::from_str("launchd")
    } else if find_substr(path, "brew") {
        String::from_str("brew")
    } else {
        String::from_str("unknown")
    }
}

/// Classifies a process-table answer: a process that is gone (or was
/// never there) is "unknown"; a live one is classified by its executable
/// path, an unavailable path being empty and so also "unknown".
pub fn classify_meta(meta: Option<ProcMeta>) -> (r: String)
    ensures
        meta is None ==> r@ == "unknown"@,
        meta matches Some(m) ==> r@ == classify_spec(m.exe_path@),
        is_source_label(r@),
{
    match meta {
        Some(m) => classify_path(m.exe_path.as_str()),
        None => String::from_str("unknown"),
    }
}

/// Looks the process up in a fresh process table and classifies the
/// answer through `classify_meta`. The lookup reads the live process
/// table, so only the shape of the result is promised here; what each
/// table answer yields is `classify_meta`'s contract.
pub fn detect_source(pid: u32) -> (r: String)
    ensures
        is_source_label(r@),
{
    classify_meta(sys::query_process(pid))
}

} // verus!
