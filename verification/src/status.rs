//! The tracer-pid presence check: parsing the process status text.
//!
//! On Linux and Android the kernel records the process id of an attached
//! tracer in the process's status pseudo-file, on a line of the form
//! `TracerPid:\t<pid>`. The caller reads that text and hands it in here as
//! bytes; this module locates the tracer-pid line, parses its value, and
//! decides presence. A text with no parsable tracer-pid line is a
//! determination failure, never a silent "absent": treating unreadable state
//! as absence would let a sandbox that hides the status file defeat the
//! check.

use vstd::prelude::*;

use crate::outcome::FailureReason;

verus! {

/// An ASCII decimal digit.
pub open spec fn is_ascii_digit(b: u8) -> bool {
    48 <= b && b <= 57
}

/// ASCII whitespace as the status parser strips it around the tracer-pid
/// value: space, tab, line feed, vertical tab, form feed, carriage return.
pub open spec fn is_ascii_space(b: u8) -> bool {
    b == 32 || (9 <= b && b <= 13)
}

/// Whether a line begins with the bytes of `TracerPid:`.
pub open spec fn has_tracer_prefix(line: Seq<u8>) -> bool {
    &&& line.len() >= 10
    &&& line[0] == 84  // 'T'
    &&& line[1] == 114  // 'r'
    &&& line[2] == 97  // 'a'
    &&& line[3] == 99  // 'c'
    &&& line[4] == 101  // 'e'
    &&& line[5] == 114  // 'r'
    &&& line[6] == 80  // 'P'
    &&& line[7] == 105  // 'i'
    &&& line[8] == 100  // 'd'
    &&& line[9] == 58  // ':'
}

/// Every byte is an ASCII decimal digit.
pub open spec fn all_digits(s: Seq<u8>) -> bool {
    forall|k: int| 0 <= k < s.len() ==> is_ascii_digit(s[k])
}

/// The value of a sequence of decimal digits, most significant first.
pub open spec fn digits_value(s: Seq<u8>) -> int
    decreases s.len(),
{
    if s.len() == 0 {
        0
    } else {
        digits_value(s.drop_last()) * 10 + (s.last() - 48)
    }
}

/// The sequence with leading and trailing ASCII whitespace removed.
pub open spec fn trimmed(s: Seq<u8>) -> Seq<u8>
    decreases s.len(),
{
    if s.len() == 0 {
        s
    } else if is_ascii_space(s[0]) {
        trimmed(s.drop_first())
    } else if is_ascii_space(s.last()) {
        trimmed(s.drop_last())
    } else {
        s
    }
}

/// The value of an optionally signed decimal numeral, provided the digits
/// are nonempty and the value fits in an `i32`; `None` otherwise. This is
/// the shape the standard integer parser accepts.
pub open spec fn parse_i32(s: Seq<u8>) -> Option<int> {
    if s.len() > 0 && s[0] == 45 {  // '-'
        parse_i32_magnitude(s.drop_first(), -1)
    } else if s.len() > 0 && s[0] == 43 {  // '+'
        parse_i32_magnitude(s.drop_first(), 1)
    } else {
        parse_i32_magnitude(s, 1)
    }
}

/// The signed value of an unsigned digit string, if it is one and the
/// signed value is in `i32` range.
pub open spec fn parse_i32_magnitude(mag: Seq<u8>, sign: int) -> Option<int> {
    if mag.len() > 0 && all_digits(mag) && i32::MIN <= sign * digits_value(mag) <= i32::MAX {
        Some(sign * digits_value(mag))
    } else {
        None
    }
}

/// What one status line contributes: the parsed tracer pid if the line has
/// the `TracerPid:` prefix and the rest of the line, with surrounding
/// whitespace stripped, is a valid `i32` numeral; `None` otherwise.
pub open spec fn line_tracer_pid(line: Seq<u8>) -> Option<int> {
    if has_tracer_prefix(line) {
        parse_i32(trimmed(line.skip(10)))
    } else {
        None
    }
}

/// The index of the first line feed in `s`, or `s.len()` if there is none.
pub open spec fn first_newline(s: Seq<u8>) -> int
    decreases s.len(),
{
    if s.len() == 0 {
        0
    } else if s[0] == 10 {
        0
    } else {
        1 + first_newline(s.drop_first())
    }
}

/// The tracer pid recorded in a whole status text: the contribution of the
/// first line that yields one, scanning lines split on line feeds in order;
/// `None` when no line yields a value.
pub open spec fn status_tracer_pid(s: Seq<u8>) -> Option<int>
    decreases s.len(),
    via status_tracer_pid_decreases
{
    if s.len() == 0 {
        None
    } else {
        let nl = first_newline(s);
        if nl >= s.len() {
            line_tracer_pid(s)
        } else {
            match line_tracer_pid(s.subrange(0, nl)) {
                Some(pid) => Some(pid),
                None => status_tracer_pid(s.subrange(nl + 1, s.len() as int)),
            }
        }
    }
}

#[via_fn]
proof fn status_tracer_pid_decreases(s: Seq<u8>) {
    lemma_first_newline_bounds(s);
}

/// The first line feed lies within the sequence: between 0 and its length.
proof fn lemma_first_newline_bounds(s: Seq<u8>)
    ensures
        0 <= first_newline(s) <= s.len(),
    decreases s.len(),
{
    if s.len() != 0 && s[0] != 10 {
        lemma_first_newline_bounds(s.drop_first());
    }
}

/// A position with no line feed before it, and a line feed (or the end of
/// the sequence) at it, is where `first_newline` points.
proof fn lemma_first_newline_is(s: Seq<u8>, m: int)
    requires
        0 <= m <= s.len(),
        forall|k: int| 0 <= k < m ==> s[k] != 10,
        m == s.len() || s[m] == 10,
    ensures
        first_newline(s) == m,
    decreases s.len(),
{
    if s.len() == 0 {
    } else if s[0] == 10 {
        assert(m == 0);
    } else {
        assert(m >= 1);
        let t = s.drop_first();
        assert(forall|k: int| 0 <= k < m - 1 ==> t[k] == s[k + 1] && s[k + 1] != 10);
        assert(m - 1 == t.len() || t[m - 1] == 10);
        lemma_first_newline_is(t, m - 1);
    }
}

/// Characterizes `trimmed` by cut positions: if everything before `i` and
/// from `j` on is whitespace, and the ends at `i` and `j - 1` are not, the
/// trimmed sequence is exactly the part between them.
proof fn lemma_trimmed_is(l: Seq<u8>, i: int, j: int)
    requires
        0 <= i <= j <= l.len(),
        forall|k: int| 0 <= k < i ==> is_ascii_space(l[k]),
        forall|k: int| j <= k < l.len() ==> is_ascii_space(l[k]),
        i == j || (!is_ascii_space(l[i]) && !is_ascii_space(l[j - 1])),
    ensures
        trimmed(l) == l.subrange(i, j),
    decreases l.len(),
{
    if l.len() == 0 {
        assert(l.subrange(0, 0) =~= l);
    } else if is_ascii_space(l[0]) {
        let t = l.drop_first();
        if i > 0 {
            assert(forall|k: int| 0 <= k < i - 1 ==> is_ascii_space(#[trigger] t[k]));
            assert(forall|k: int| j - 1 <= k < t.len() ==> is_ascii_space(#[trigger] t[k]));
            lemma_trimmed_is(t, i - 1, j - 1);
            assert(t.subrange(i - 1, j - 1) =~= l.subrange(i, j));
        } else {
            assert(i == j);
            assert(forall|k: int| 0 <= k < t.len() ==> is_ascii_space(#[trigger] t[k]));
            lemma_trimmed_is(t, 0, 0);
            assert(t.subrange(0, 0) =~= l.subrange(i, j));
        }
    } else if is_ascii_space(l.last()) {
        assert(j < l.len()) by {
            if j == l.len() {
                assert(i == j);
                assert(is_ascii_space(l[0]));
            }
        }
        let t = l.drop_last();
        assert(forall|k: int| 0 <= k < i ==> is_ascii_space(#[trigger] t[k]));
        assert(forall|k: int| j <= k < t.len() ==> is_ascii_space(#[trigger] t[k]));
        lemma_trimmed_is(t, i, j);
        assert(t.subrange(i, j) =~= l.subrange(i, j));
    } else {
        assert(i == 0) by {
            if i > 0 {
                assert(is_ascii_space(l[0]));
            }
        }
        assert(j == l.len()) by {
            if j < l.len() {
                assert(is_ascii_space(l[l.len() - 1]));
            }
        }
        assert(l.subrange(0, l.len() as int) =~= l);
    }
}

/// A digit string has a nonnegative value.
proof fn lemma_digits_value_nonneg(s: Seq<u8>)
    requires
        all_digits(s),
    ensures
        digits_value(s) >= 0,
    decreases s.len(),
{
    if s.len() > 0 {
        assert(forall|k: int| 0 <= k < s.len() - 1 ==> is_ascii_digit(#[trigger] s.drop_last()[k]));
        lemma_digits_value_nonneg(s.drop_last());
    }
}

/// Decides `is_ascii_space` executably.
fn byte_is_space(b: u8) -> (r: bool)
    ensures
        r == is_ascii_space(b),
{
    b == 32 || (9 <= b && b <= 13)
}

/// Parses one status line, the bytes of `s` at positions `lo..hi`, as a
/// tracer-pid line: the result is exactly what `line_tracer_pid` says of it.
#[verifier::loop_isolation(false)]
#[verifier::rlimit(60)]
fn parse_line_pid(s: &[u8], lo: usize, hi: usize) -> (r: Option<i32>)
    requires
        lo <= hi <= s@.len(),
    ensures
        ({
            let line = s@.subrange(lo as int, hi as int);
            match r {
                Some(pid) => line_tracer_pid(line) == Some(pid as int),
                None => line_tracer_pid(line) is None,
            }
        }),
{
    let ghost line = s@.subrange(lo as int, hi as int);
    if hi - lo < 10 {
        return None;
    }
    if !(s[lo] == 84 && s[lo + 1] == 114 && s[lo + 2] == 97 && s[lo + 3] == 99
        && s[lo + 4] == 101 && s[lo + 5] == 114 && s[lo + 6] == 80 && s[lo + 7] == 105
        && s[lo + 8] == 100 && s[lo + 9] == 58) {
        assert(!has_tracer_prefix(line));
        return None;
    }
    assert(has_tracer_prefix(line));

    // Strip whitespace around the value that follows the prefix.
    let mut t_lo: usize = lo + 10;
    let mut t_hi: usize = hi;
    while t_lo < t_hi && byte_is_space(s[t_lo])
        invariant
            lo + 10 <= t_lo <= t_hi <= s@.len(),
            t_hi == hi <= s@.len(),
            forall|k: int| lo + 10 <= k < t_lo ==> is_ascii_space(#[trigger] s@[k]),
        decreases t_hi - t_lo,
    {
        t_lo = t_lo + 1;
    }
    while t_hi > t_lo && byte_is_space(s[t_hi - 1])
        invariant
            lo + 10 <= t_lo <= t_hi <= hi <= s@.len(),
            forall|k: int| lo + 10 <= k < t_lo ==> is_ascii_space(#[trigger] s@[k]),
            forall|k: int| t_hi <= k < hi ==> is_ascii_space(#[trigger] s@[k]),
            t_lo == t_hi || !is_ascii_space(s@[t_lo as int]),
        decreases t_hi,
    {
        t_hi = t_hi - 1;
    }
    let ghost rest = line.skip(10);
    let ghost ti = t_lo as int - (lo as int + 10);
    let ghost tj = t_hi as int - (lo as int + 10);
    proof {
        assert(rest =~= s@.subrange(lo as int + 10, hi as int));
        assert forall|k: int| 0 <= k < ti implies is_ascii_space(#[trigger] rest[k]) by {
            assert(rest[k] == s@[lo as int + 10 + k]);
        }
        assert forall|k: int| tj <= k < rest.len() implies is_ascii_space(#[trigger] rest[k]) by {
            assert(rest[k] == s@[lo as int + 10 + k]);
        }
        if t_lo != t_hi {
            assert(rest[ti] == s@[t_lo as int]);
            assert(rest[tj - 1] == s@[t_hi as int - 1]);
        }
        lemma_trimmed_is(rest, ti, tj);
        assert(trimmed(rest) =~= s@.subrange(t_lo as int, t_hi as int));
    }
    let ghost value_text = s@.subrange(t_lo as int, t_hi as int);

    if t_lo == t_hi {
        assert(parse_i32(value_text) is None);
        return None;
    }

    // An optional sign, then the digits.
    let first = s[t_lo];
    let neg: bool = first == 45;
    let d_lo: usize = if first == 45 || first == 43 {
        t_lo + 1
    } else {
        t_lo
    };
    let ghost mag = s@.subrange(d_lo as int, t_hi as int);
    let ghost sign: int = if neg { -1int } else { 1int };
    proof {
        assert(value_text[0] == s@[t_lo as int]);
        if first == 45 || first == 43 {
            assert(value_text.drop_first() =~= mag);
        } else {
            assert(value_text =~= mag);
        }
        assert(parse_i32(value_text) == parse_i32_magnitude(mag, sign));
    }
    if d_lo == t_hi {
        assert(parse_i32_magnitude(mag, sign) is None);
        return None;
    }

    // Accumulate the digits, clamping the magnitude just past the i32 range
    // so that an overflowing value is still recognized as such.
    let mut k: usize = d_lo;
    let mut acc: u64 = 0;
    while k < t_hi
        invariant
            d_lo <= k <= t_hi <= s@.len(),
            mag == s@.subrange(d_lo as int, t_hi as int),
            all_digits(s@.subrange(d_lo as int, k as int)),
            acc <= 2147483649,
            digits_value(s@.subrange(d_lo as int, k as int)) <= 2147483649
                ==> acc == digits_value(s@.subrange(d_lo as int, k as int)),
            digits_value(s@.subrange(d_lo as int, k as int)) > 2147483649 ==> acc == 2147483649,
        decreases t_hi - k,
    {
        let b = s[k];
        if !(48 <= b && b <= 57) {
            proof {
                assert(mag[k as int - d_lo as int] == s@[k as int]);
                assert(!all_digits(mag));
            }
            return None;
        }
        proof {
            let cur = s@.subrange(d_lo as int, k as int);
            let nxt = s@.subrange(d_lo as int, k as int + 1);
            assert(nxt.drop_last() =~= cur);
            assert(nxt.last() == s@[k as int]);
            assert(digits_value(nxt) == digits_value(cur) * 10 + (s@[k as int] - 48));
            lemma_digits_value_nonneg(cur);
            assert forall|k2: int| 0 <= k2 < nxt.len() implies is_ascii_digit(#[trigger] nxt[k2]) by {
                assert(nxt[k2] == s@[d_lo as int + k2]);
                if k2 < nxt.len() - 1 {
                    assert(nxt[k2] == cur[k2]);
                }
            }
        }
        let d = (b - 48) as u64;
        acc = acc * 10 + d;
        if acc > 2147483649 {
            acc = 2147483649;
        }
        k = k + 1;
    }
    proof {
        lemma_digits_value_nonneg(mag);
    }

    if neg {
        if acc <= 2147483648 {
            let pid: i32 = if acc == 2147483648 {
                i32::MIN
            } else {
                0 - (acc as i32)
            };
            return Some(pid);
        } else {
            return None;
        }
    } else {
        if acc <= 2147483647 {
            return Some(acc as i32);
        } else {
            return None;
        }
    }
}

/// Extracts the tracer pid from a status text: `Ok` with the value of the
/// first parsable tracer-pid line, or a determination failure when no line
/// yields one.
#[verifier::loop_isolation(false)]
pub fn tracer_pid_from_status(status: &[u8]) -> (r: Result<i32, FailureReason>)
    ensures
        ({
            match r {
                Ok(pid) => status_tracer_pid(status@) == Some(pid as int),
                Err(reason) => {
                    &&& status_tracer_pid(status@) is None
                    &&& reason == FailureReason::MalformedTracerField
                },
            }
        }),
{
    let n = status.len();
    let mut start: usize = 0;
    proof {
        assert(status@.subrange(0, n as int) =~= status@);
    }
    while start < n
        invariant
            start <= n == status@.len(),
            status_tracer_pid(status@) == status_tracer_pid(
                status@.subrange(start as int, n as int),
            ),
        decreases n - start,
    {
        // Find the end of the current line.
        let mut end: usize = start;
        while end < n && status[end] != 10
            invariant
                start <= end <= n,
                forall|k: int| start <= k < end ==> #[trigger] status@[k] != 10,
            decreases n - end,
        {
            end = end + 1;
        }
        let ghost rest = status@.subrange(start as int, n as int);
        proof {
            assert forall|k: int| 0 <= k < end - start implies #[trigger] rest[k] != 10 by {
                assert(rest[k] == status@[start + k]);
            }
            if end < n {
                assert(rest[end - start] == status@[end as int]);
            }
            lemma_first_newline_is(rest, end as int - start as int);
            if end == n {
                assert(rest =~= status@.subrange(start as int, end as int));
            } else {
                assert(rest.subrange(0, end - start) =~= status@.subrange(
                    start as int,
                    end as int,
                ));
                assert(rest.subrange(end - start + 1, rest.len() as int) =~= status@.subrange(
                    end as int + 1,
                    n as int,
                ));
            }
        }
        match parse_line_pid(status, start, end) {
            Some(pid) => {
                return Ok(pid);
            },
            None => {},
        }
        if end == n {
            start = end;
        } else {
            start = end + 1;
        }
    }
    proof {
        assert(status@.subrange(start as int, n as int) =~= Seq::<u8>::empty());
    }
    Err(FailureReason::MalformedTracerField)
}

/// What a presence check concludes from a status text: present exactly when
/// the recorded tracer pid is nonzero, and a determination failure — never a
/// silent absence — when the text holds no parsable tracer-pid line.
pub open spec fn presence_outcome(s: Seq<u8>) -> Result<bool, FailureReason> {
    match status_tracer_pid(s) {
        Some(pid) => Ok(pid != 0),
        None => Err(FailureReason::MalformedTracerField),
    }
}

/// Decides whether a debugger is attached, given the current content of the
/// process's status pseudo-file as the caller read it from the OS. A nonzero
/// tracer pid means some tracer — a debugger included — is attached; a text
/// with no parsable tracer-pid line is reported as a failure, so that hiding
/// the status file cannot silently pass for absence.
pub fn is_debugger_present(status: &[u8]) -> (r: Result<bool, FailureReason>)
    ensures
        r == presence_outcome(status@),
{
    match tracer_pid_from_status(status) {
        Ok(pid) => Ok(pid != 0),
        Err(reason) => Err(reason),
    }
}

/// A status text whose tracer pid is recorded as zero — the baseline of a
/// process running under no tracer — always reports the debugger absent.
pub proof fn lemma_untraced_status_reports_absent(s: Seq<u8>)
    requires
        status_tracer_pid(s) == Some(0int),
    ensures
        presence_outcome(s) == Ok::<bool, FailureReason>(false),
{
}

/// A status text that records a nonzero tracer pid — a debugger still
/// attached — always reports the debugger present; after a detach the kernel
/// records zero again and the check returns to absent.
pub proof fn lemma_traced_status_reports_present(s: Seq<u8>, pid: int)
    requires
        status_tracer_pid(s) == Some(pid),
        pid != 0,
    ensures
        presence_outcome(s) == Ok::<bool, FailureReason>(true),
{
}

/// A status text with no parsable tracer-pid line yields a determination
/// failure, not a false "absent": the check cannot be defeated by feeding it
/// unreadable state.
pub proof fn lemma_malformed_status_is_failure(s: Seq<u8>)
    requires
        status_tracer_pid(s) is None,
    ensures
        presence_outcome(s) == Err::<bool, FailureReason>(FailureReason::MalformedTracerField),
        presence_outcome(s) != Ok::<bool, FailureReason>(false),
{
}

/// Repeated presence checks over an unchanged status text are stable: the
/// outcome is a function of the observed text alone, so two checks with no
/// intervening attach or detach agree.
pub proof fn lemma_presence_check_stable(
    s: Seq<u8>,
    r1: Result<bool, FailureReason>,
    r2: Result<bool, FailureReason>,
)
    requires
        r1 == presence_outcome(s),
        r2 == presence_outcome(s),
    ensures
        r1 == r2,
{
}

} // verus!
