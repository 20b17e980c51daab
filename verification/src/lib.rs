//! Library behind a "what is using this port" desktop utility: it parses the
//! output of the system socket-listing tool into structured records, labels
//! the owning process with a best-effort source classification, and drives a
//! graceful-then-forced process-termination protocol.

pub mod classify;
pub mod listing;
pub mod records;
pub mod sys;
pub mod terminate;
pub mod text;
