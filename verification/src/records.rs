//! The records the library produces: one per listed socket, one per
//! termination attempt, and the typed errors of the termination paths.

use vstd::prelude::*;
use crate::text::dec_chars;
use crate::text::u16_to_string;

verus! {

/// One listed socket: a transient snapshot, re-derived fresh on each call.
///
/// `port` and `pid` are always present and valid; the other fields degrade
/// to empty or "unknown" rather than failing the record.
#[derive(Clone, Debug)]
pub struct PortInfo {
    pub port: u16,
    pub protocol: String,
    pub pid: u32,
    pub process_name: String,
    pub exe_path: String,
    pub user: String,
    pub source: String,
    pub remarks: String,
}

/// The outcome of a termination attempt that ran to a result.
#[derive(Clone, Debug)]
pub struct KillResult {
    pub success: bool,
    pub message: String,
}

/// The hard errors of the termination paths. Listing never fails this way:
/// a missing tool degrades to an empty listing, a malformed line is
/// skipped.
#[derive(Clone, Copy, Debug, PartialEq, Eq, Structural)]
pub enum KillError {
    /// The process id was absent from the process table at lookup time.
    NotFound,
    /// No process was found listening on the requested port.
    NoListener { port: u16 },
    /// The operating system refused delivery of the forced signal.
    PermissionDenied,
}

/// The user-facing message for each termination error.
pub open spec fn kill_error_message_spec(e: KillError) -> Seq<char> {
    match e {
        KillError::NotFound => "Process not found"@,
        KillError::NoListener { port } => "No process found listening on port "@ + dec_chars(
            port as nat,
        ),
        KillError::PermissionDenied => "Failed to terminate process - permission denied. Try running with elevated privileges."@,
    }
}

impl KillError {
    /// Renders the error as the message the caller shows.
    pub fn message(&self) -> (r: String)
        ensures
            r@ == kill_error_message_spec(*self),
    {
        match self {
            KillError::NotFound => String::from_str("Process not found"),
            KillError::NoListener { port } => {
                let mut s = String::from_str("No process found listening on port ");
                let digits = u16_to_string(*port);
                s.append(digits.as_str());
                s
            },
            KillError::PermissionDenied => String::from_str(
                "Failed to terminate process - permission denied. Try running with elevated privileges.",
            ),
        }
    }
}

} // verus!
