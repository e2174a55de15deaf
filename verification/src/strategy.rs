//! Per-platform strategy decisions over plain kernel observations.
//!
//! Each supported platform answers the two operations through different OS
//! queries. The queries themselves — kernel calls on Windows, a BSD process
//! info call on macOS, a ptrace-permission call on Linux — are performed by
//! the caller; their raw results come here as plain values and every
//! decision made on them is verified. Which strategy is consulted is fixed
//! per build artifact, not chosen at run time.

use vstd::prelude::*;

use crate::outcome::FailureReason;
use crate::outcome::StepOutcome;
use crate::outcome::combine_checks;
use crate::outcome::combined_outcome;

verus! {

/// The "traced" bit in the flags word of a BSD process-info record.
pub open spec fn traced_flag_set(flags: u32) -> bool {
    flags & 2 != 0
}

/// Reads the "traced" bit out of a BSD process-info flags word.
pub fn presence_from_bsd_flags(flags: u32) -> (r: bool)
    ensures
        r == traced_flag_set(flags),
{
    flags & 2 != 0
}

/// What the macOS strategy concludes from the process-info query: the traced
/// bit of the flags word when the query succeeded, and a check failure — not
/// an absence — when the query itself failed with an OS error.
pub open spec fn bsd_presence_outcome(query: Result<u32, i32>) -> Result<bool, FailureReason> {
    match query {
        Ok(flags) => Ok(traced_flag_set(flags)),
        Err(code) => Err(FailureReason::OsError(code)),
    }
}

/// Decides presence from the outcome of a BSD process-info query for the
/// current process: `Ok` with the flags word, or `Err` with the OS error
/// code when the query could not be carried out.
pub fn bsd_presence_check(query: Result<u32, i32>) -> (r: Result<bool, FailureReason>)
    ensures
        r == bsd_presence_outcome(query),
{
    match query {
        Ok(flags) => Ok(presence_from_bsd_flags(flags)),
        Err(code) => Err(FailureReason::OsError(code)),
    }
}

/// The two extra observations of the deep-detect escalation on Windows: the
/// remote-debugger-presence query against the current process handle, and
/// the debug-port query, each either its answer or the OS error code of a
/// failed query.
#[derive(Clone, Copy, Debug)]
pub struct DeepSignals {
    /// Whether the remote-debugger query reported a debugger, or the OS
    /// error of a query that could not be executed.
    pub remote_debugger: Result<bool, i32>,
    /// The debug port of the process, or the error code of a failed query; a
    /// nonzero port means a debugger is attached.
    pub debug_port: Result<i32, i32>,
}

/// The deep-detect step for the remote-debugger query.
pub open spec fn remote_debugger_step(query: Result<bool, i32>) -> StepOutcome {
    match query {
        Ok(true) => StepOutcome::Present,
        Ok(false) => StepOutcome::Absent,
        Err(code) => StepOutcome::Failed(FailureReason::OsError(code)),
    }
}

/// The deep-detect step for the debug-port query.
pub open spec fn debug_port_step(query: Result<i32, i32>) -> StepOutcome {
    match query {
        Ok(port) => if port != 0 {
            StepOutcome::Present
        } else {
            StepOutcome::Absent
        },
        Err(code) => StepOutcome::Failed(FailureReason::OsError(code)),
    }
}

/// The ordered detection steps of the Windows strategy: the cheap
/// is-debugger-present flag first, then — only when deep detection was
/// requested — the two escalating queries.
pub open spec fn windows_steps(debugger_flag: bool, deep: Option<DeepSignals>) -> Seq<
    StepOutcome,
> {
    let first = if debugger_flag {
        StepOutcome::Present
    } else {
        StepOutcome::Absent
    };
    match deep {
        None => seq![first],
        Some(signals) => seq![
            first,
            remote_debugger_step(signals.remote_debugger),
            debug_port_step(signals.debug_port),
        ],
    }
}

/// What the Windows strategy concludes: the fold of its ordered steps, the
/// first non-absent step winning.
pub open spec fn windows_presence_outcome(
    debugger_flag: bool,
    deep: Option<DeepSignals>,
) -> Result<bool, FailureReason> {
    combined_outcome(windows_steps(debugger_flag, deep))
}

/// Decides presence from the Windows observations: the value of the cheap
/// is-debugger-present flag, and the deep-detect query results when that
/// escalation was enabled for the build. The deeper checks are consulted
/// only when the cheap flag did not already find a debugger, and a failed
/// query surfaces as a check failure rather than an absence.
pub fn windows_presence_check(debugger_flag: bool, deep: Option<DeepSignals>) -> (r: Result<
    bool,
    FailureReason,
>)
    ensures
        r == windows_presence_outcome(debugger_flag, deep),
{
    let mut steps: Vec<StepOutcome> = Vec::new();
    if debugger_flag {
        steps.push(StepOutcome::Present);
    } else {
        steps.push(StepOutcome::Absent);
    }
    match deep {
        None => {},
        Some(signals) => {
            match signals.remote_debugger {
                Ok(true) => steps.push(StepOutcome::Present),
                Ok(false) => steps.push(StepOutcome::Absent),
                Err(code) => steps.push(StepOutcome::Failed(FailureReason::OsError(code))),
            }
            match signals.debug_port {
                Ok(port) => if port != 0 {
                    steps.push(StepOutcome::Present)
                } else {
                    steps.push(StepOutcome::Absent)
                },
                Err(code) => steps.push(StepOutcome::Failed(FailureReason::OsError(code))),
            }
        },
    }
    proof {
        assert(steps@ =~= windows_steps(debugger_flag, deep));
    }
    combine_checks(&steps)
}

/// What an attach-denial request concludes from the kernel's return value:
/// the Unix convention, where -1 reports a failure whose cause is the
/// accompanying error number, and any other return is acceptance.
pub open spec fn denial_outcome(ret: i32, os_error: i32) -> Result<(), FailureReason> {
    if ret == -1 {
        Err(FailureReason::OsError(os_error))
    } else {
        Ok(())
    }
}

/// Decides the outcome of an attach-denial kernel call from its return
/// value and the error number read after it: the ptrace-permission call on
/// Linux and the deny-attach request on macOS both follow this convention.
pub fn denial_from_ret(ret: i32, os_error: i32) -> (r: Result<(), FailureReason>)
    ensures
        r == denial_outcome(ret, os_error),
{
    if ret == -1 {
        Err(FailureReason::OsError(os_error))
    } else {
        Ok(())
    }
}

/// What the Windows hide-from-debugger request concludes from its status,
/// already converted to an OS error code: zero is acceptance, anything else
/// a failure with that code.
pub open spec fn nt_denial_outcome(error_code: i32) -> Result<(), FailureReason> {
    if error_code != 0 {
        Err(FailureReason::OsError(error_code))
    } else {
        Ok(())
    }
}

/// Decides the outcome of the hide-from-debugger thread request on Windows
/// from the error code its status converts to.
pub fn denial_from_error_code(error_code: i32) -> (r: Result<(), FailureReason>)
    ensures
        r == nt_denial_outcome(error_code),
{
    if error_code != 0 {
        Err(FailureReason::OsError(error_code))
    } else {
        Ok(())
    }
}

/// A flags word without the traced bit — the baseline of a process under no
/// tracer — always reports the debugger absent on macOS.
pub proof fn lemma_untraced_bsd_flags_report_absent(flags: u32)
    requires
        flags & 2 == 0,
    ensures
        bsd_presence_outcome(Ok(flags)) == Ok::<bool, FailureReason>(false),
{
}

/// Quiet Windows observations — the cheap flag clear, and any requested
/// deep-detect queries answering "no debugger" and "no debug port" — always
/// report the debugger absent, whether or not deep detection is enabled.
pub proof fn lemma_quiet_windows_signals_report_absent(deep: Option<DeepSignals>)
    requires
        deep matches Some(signals) ==> signals.remote_debugger == Ok::<bool, i32>(false)
            && signals.debug_port == Ok::<i32, i32>(0),
    ensures
        windows_presence_outcome(false, deep) == Ok::<bool, FailureReason>(false),
{
    let steps = windows_steps(false, deep);
    match deep {
        None => {
            assert(steps[0] == StepOutcome::Absent);
            assert(steps.drop_first() =~= Seq::<StepOutcome>::empty());
            assert(combined_outcome(steps.drop_first()) == Ok::<bool, FailureReason>(false));
            assert(combined_outcome(steps) == Ok::<bool, FailureReason>(false));
        },
        Some(signals) => {
            let s1 = steps.drop_first();
            let s2 = s1.drop_first();
            assert(steps[0] == StepOutcome::Absent);
            assert(s1[0] == steps[1] && steps[1] == StepOutcome::Absent);
            assert(s2[0] == steps[2] && steps[2] == StepOutcome::Absent);
            assert(s2.drop_first() =~= Seq::<StepOutcome>::empty());
            assert(combined_outcome(s2.drop_first()) == Ok::<bool, FailureReason>(false));
            assert(combined_outcome(s2) == Ok::<bool, FailureReason>(false));
            assert(combined_outcome(s1) == Ok::<bool, FailureReason>(false));
            assert(combined_outcome(steps) == Ok::<bool, FailureReason>(false));
        },
    }
}

/// The steps are consulted in strict order: when the cheap
/// is-debugger-present flag already found a debugger, the verdict is
/// present, whatever the deeper queries would have answered — even their
/// failures are not reached.
pub proof fn lemma_windows_flag_short_circuits(deep: Option<DeepSignals>)
    ensures
        windows_presence_outcome(true, deep) == Ok::<bool, FailureReason>(true),
{
    let steps = windows_steps(true, deep);
    assert(steps[0] == StepOutcome::Present);
    assert(combined_outcome(steps) == Ok::<bool, FailureReason>(true));
}

/// Repeated attach-denial requests that the kernel keeps accepting keep
/// reporting success: the outcome depends only on the return value of the
/// call at hand, so an earlier success cannot turn a later accepted call
/// into a library-made error.
pub proof fn lemma_denial_repeat_succeeds(ret1: i32, ret2: i32, err1: i32, err2: i32)
    requires
        ret1 != -1,
        ret2 != -1,
    ensures
        denial_outcome(ret1, err1) == Ok::<(), FailureReason>(()),
        denial_outcome(ret2, err2) == Ok::<(), FailureReason>(()),
{
}

} // verus!
