//! Debugger detection and attach denial, as decision logic over operating
//! system observations.
//!
//! A process that wants to notice or discourage inspection asks the OS a small
//! number of questions: is a tracer recorded for this process, is the traced
//! flag set in its BSD process info, did the kernel accept a request to refuse
//! future tracers. The answers arrive as plain values — the text of a status
//! pseudo-file, a flags word, a return code with an error number. This crate
//! holds the verified core that turns those values into the library's
//! answers: it parses the status text, combines ordered detection steps with
//! first-non-absent-wins semantics, and maps kernel return codes to outcomes.
//! The system calls and file reads themselves are inherently unverifiable and
//! live with the callers that perform them; every decision made on what they
//! return is proved here.
//!
//! An indeterminate observation is always surfaced as a failure, never
//! silently coerced to "absent": the presence check is deliberately not
//! fail-open.

pub mod outcome;
pub mod status;
pub mod strategy;

pub use outcome::FailureReason;
pub use outcome::StepOutcome;
pub use outcome::combine_checks;
pub use status::is_debugger_present;
pub use status::tracer_pid_from_status;
pub use strategy::DeepSignals;
pub use strategy::bsd_presence_check;
pub use strategy::denial_from_error_code;
pub use strategy::denial_from_ret;
pub use strategy::presence_from_bsd_flags;
pub use strategy::windows_presence_check;
