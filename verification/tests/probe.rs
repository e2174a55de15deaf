use anti_debug::FailureReason;
use anti_debug::StepOutcome;
use anti_debug::DeepSignals;
use anti_debug::bsd_presence_check;
use anti_debug::combine_checks;
use anti_debug::denial_from_error_code;
use anti_debug::denial_from_ret;
use anti_debug::is_debugger_present;
use anti_debug::presence_from_bsd_flags;
use anti_debug::tracer_pid_from_status;
use anti_debug::windows_presence_check;

const BASELINE_STATUS: &[u8] = b"Name:\tcat\nUmask:\t0022\nState:\tR (running)\n\
Tgid:\t2741\nNgid:\t0\nPid:\t2741\nPPid:\t2704\nTracerPid:\t0\nUid:\t1000\t1000\t1000\t1000\n";

const TRACED_STATUS: &[u8] = b"Name:\tcat\nState:\tt (tracing stop)\nPid:\t2741\n\
TracerPid:\t812\nUid:\t1000\t1000\t1000\t1000\n";

#[test]
fn test_is_debugger_present() {
    assert!(!is_debugger_present(BASELINE_STATUS).unwrap_or(false));
    assert!(!is_debugger_present(BASELINE_STATUS).unwrap_or(false));
    assert!(!is_debugger_present(BASELINE_STATUS).unwrap_or(false));
}

#[test]
fn test_deny_attach() {
    denial_from_ret(0, 0).unwrap();
    denial_from_ret(0, 0).unwrap();
    denial_from_ret(0, 0).unwrap();
}

#[test]
fn tracer_pid_parsed_exactly() {
    assert_eq!(tracer_pid_from_status(BASELINE_STATUS), Ok(0));
    assert_eq!(tracer_pid_from_status(TRACED_STATUS), Ok(812));
    assert_eq!(tracer_pid_from_status(b"TracerPid:\t12345\n"), Ok(12345));
    assert_eq!(tracer_pid_from_status(b"TracerPid: 7"), Ok(7));
}

#[test]
fn zero_tracer_reports_absent() {
    assert_eq!(is_debugger_present(BASELINE_STATUS), Ok(false));
}

#[test]
fn nonzero_tracer_reports_present() {
    assert_eq!(is_debugger_present(TRACED_STATUS), Ok(true));
}

#[test]
fn missing_tracer_line_is_failure() {
    let status = b"Name:\tcat\nPid:\t2741\nUid:\t1000\n";
    assert_eq!(
        is_debugger_present(status),
        Err(FailureReason::MalformedTracerField)
    );
}

#[test]
fn empty_status_is_failure() {
    assert_eq!(
        is_debugger_present(b""),
        Err(FailureReason::MalformedTracerField)
    );
}

#[test]
fn non_numeric_tracer_is_failure() {
    assert_eq!(
        is_debugger_present(b"TracerPid:\tabc\n"),
        Err(FailureReason::MalformedTracerField)
    );
    assert_eq!(
        is_debugger_present(b"TracerPid:\t12x\n"),
        Err(FailureReason::MalformedTracerField)
    );
    assert_eq!(
        is_debugger_present(b"TracerPid:\n"),
        Err(FailureReason::MalformedTracerField)
    );
}

#[test]
fn sign_without_digits_is_failure() {
    assert_eq!(
        tracer_pid_from_status(b"TracerPid: -\n"),
        Err(FailureReason::MalformedTracerField)
    );
    assert_eq!(
        tracer_pid_from_status(b"TracerPid: +\n"),
        Err(FailureReason::MalformedTracerField)
    );
}

#[test]
fn later_line_recovers_from_unparsable_one() {
    let status = b"TracerPid:\tnone\nTracerPid:\t7\n";
    assert_eq!(tracer_pid_from_status(status), Ok(7));
    assert_eq!(is_debugger_present(status), Ok(true));
}

#[test]
fn signed_tracer_values_parse() {
    assert_eq!(tracer_pid_from_status(b"TracerPid: -3\n"), Ok(-3));
    assert_eq!(tracer_pid_from_status(b"TracerPid: +9\n"), Ok(9));
    assert_eq!(is_debugger_present(b"TracerPid: -3\n"), Ok(true));
}

#[test]
fn i32_boundaries_parse_and_overflow_fails() {
    assert_eq!(
        tracer_pid_from_status(b"TracerPid: 2147483647\n"),
        Ok(2147483647)
    );
    assert_eq!(
        tracer_pid_from_status(b"TracerPid: -2147483648\n"),
        Ok(-2147483648)
    );
    assert_eq!(
        tracer_pid_from_status(b"TracerPid: 2147483648\n"),
        Err(FailureReason::MalformedTracerField)
    );
    assert_eq!(
        tracer_pid_from_status(b"TracerPid: -2147483649\n"),
        Err(FailureReason::MalformedTracerField)
    );
    assert_eq!(
        tracer_pid_from_status(b"TracerPid: 99999999999999999999\n"),
        Err(FailureReason::MalformedTracerField)
    );
}

#[test]
fn carriage_returns_are_stripped() {
    assert_eq!(is_debugger_present(b"Name:\tcat\r\nTracerPid:\t0\r\nUid:\t1000\r\n"), Ok(false));
    assert_eq!(is_debugger_present(b"TracerPid:\t4\r\n"), Ok(true));
}

#[test]
fn prefix_must_start_the_line() {
    assert_eq!(
        tracer_pid_from_status(b" TracerPid: 5\n"),
        Err(FailureReason::MalformedTracerField)
    );
    assert_eq!(
        tracer_pid_from_status(b"XTracerPid: 5\n"),
        Err(FailureReason::MalformedTracerField)
    );
}

#[test]
fn attach_then_detach_sequence() {
    // While a tracer is recorded the check reports present; once the kernel
    // records zero again after a detach, the same check reports absent.
    assert_eq!(is_debugger_present(TRACED_STATUS), Ok(true));
    assert_eq!(is_debugger_present(BASELINE_STATUS), Ok(false));
}

#[test]
fn repeated_checks_are_stable() {
    for status in [
        BASELINE_STATUS,
        TRACED_STATUS,
        b"Name:\tcat\n".as_slice(),
        b"TracerPid:\tjunk\n".as_slice(),
    ] {
        let first = is_debugger_present(status);
        let second = is_debugger_present(status);
        let third = is_debugger_present(status);
        assert_eq!(first, second);
        assert_eq!(second, third);
    }
}

#[test]
fn combine_empty_and_all_absent_report_absent() {
    assert_eq!(combine_checks(&vec![]), Ok(false));
    assert_eq!(
        combine_checks(&vec![StepOutcome::Absent, StepOutcome::Absent]),
        Ok(false)
    );
}

#[test]
fn combine_first_non_absent_wins() {
    assert_eq!(
        combine_checks(&vec![StepOutcome::Absent, StepOutcome::Present]),
        Ok(true)
    );
    assert_eq!(
        combine_checks(&vec![
            StepOutcome::Present,
            StepOutcome::Failed(FailureReason::OsError(5))
        ]),
        Ok(true)
    );
    assert_eq!(
        combine_checks(&vec![
            StepOutcome::Failed(FailureReason::OsError(5)),
            StepOutcome::Present
        ]),
        Err(FailureReason::OsError(5))
    );
}

#[test]
fn windows_cheap_flag_short_circuits() {
    assert_eq!(windows_presence_check(true, None), Ok(true));
    let failing_deep = Some(DeepSignals {
        remote_debugger: Err(5),
        debug_port: Err(6),
    });
    assert_eq!(windows_presence_check(true, failing_deep), Ok(true));
}

#[test]
fn windows_without_deep_detect_reports_flag() {
    assert_eq!(windows_presence_check(false, None), Ok(false));
}

#[test]
fn windows_deep_detect_escalates() {
    let quiet = Some(DeepSignals {
        remote_debugger: Ok(false),
        debug_port: Ok(0),
    });
    assert_eq!(windows_presence_check(false, quiet), Ok(false));

    let remote_found = Some(DeepSignals {
        remote_debugger: Ok(true),
        debug_port: Ok(0),
    });
    assert_eq!(windows_presence_check(false, remote_found), Ok(true));

    let port_found = Some(DeepSignals {
        remote_debugger: Ok(false),
        debug_port: Ok(1234),
    });
    assert_eq!(windows_presence_check(false, port_found), Ok(true));
}

#[test]
fn windows_failed_query_is_a_failure_not_absence() {
    let remote_broken = Some(DeepSignals {
        remote_debugger: Err(5),
        debug_port: Ok(1234),
    });
    assert_eq!(
        windows_presence_check(false, remote_broken),
        Err(FailureReason::OsError(5))
    );

    let port_broken = Some(DeepSignals {
        remote_debugger: Ok(false),
        debug_port: Err(87),
    });
    assert_eq!(
        windows_presence_check(false, port_broken),
        Err(FailureReason::OsError(87))
    );
}

#[test]
fn bsd_traced_bit_decides_presence() {
    assert!(presence_from_bsd_flags(2));
    assert!(presence_from_bsd_flags(3));
    assert!(!presence_from_bsd_flags(0));
    assert!(!presence_from_bsd_flags(5));
    assert_eq!(bsd_presence_check(Ok(2)), Ok(true));
    assert_eq!(bsd_presence_check(Ok(4)), Ok(false));
}

#[test]
fn bsd_failed_query_is_a_failure() {
    assert_eq!(bsd_presence_check(Err(13)), Err(FailureReason::OsError(13)));
}

#[test]
fn denial_outcomes_follow_kernel_returns() {
    assert_eq!(denial_from_ret(0, 0), Ok(()));
    assert_eq!(denial_from_ret(-1, 1), Err(FailureReason::OsError(1)));
    assert_eq!(denial_from_error_code(0), Ok(()));
    assert_eq!(denial_from_error_code(5), Err(FailureReason::OsError(5)));
}
