//! Shared outcome types and the ordered combination of detection steps.

use vstd::prelude::*;

verus! {

/// Why a presence check or an attach-denial request could not be carried out.
#[derive(Clone, Copy, Debug, PartialEq, Eq, Structural)]
pub enum FailureReason {
    /// The operating system reported an error: a failed query or kernel call,
    /// carrying the OS error code.
    OsError(i32),
    /// The process status text held no line with a parsable tracer-pid field,
    /// so presence could not be determined from it.
    MalformedTracerField,
}

/// The outcome of a single detection step: one low-level question asked of
/// the OS, already reduced to a verdict.
#[derive(Clone, Copy, Debug, PartialEq, Eq, Structural)]
pub enum StepOutcome {
    /// The step found a debugger.
    Present,
    /// The step found no debugger.
    Absent,
    /// The step could not be carried out.
    Failed(FailureReason),
}

/// What an ordered list of detection steps concludes: the first step that is
/// not `Absent` wins. A `Present` step reports a debugger, a `Failed` step
/// fails the whole check at its own position, and a list of only `Absent`
/// steps reports absence.
pub open spec fn combined_outcome(steps: Seq<StepOutcome>) -> Result<bool, FailureReason>
    decreases steps.len(),
{
    if steps.len() == 0 {
        Ok(false)
    } else {
        match steps[0] {
            StepOutcome::Present => Ok(true),
            StepOutcome::Absent => combined_outcome(steps.drop_first()),
            StepOutcome::Failed(reason) => Err(reason),
        }
    }
}

/// Folds an ordered list of detection steps into one verdict, escalating
/// from the cheapest check to deeper ones: later steps are consulted only
/// when every earlier step answered `Absent`.
pub fn combine_checks(steps: &Vec<StepOutcome>) -> (r: Result<bool, FailureReason>)
    ensures
        r == combined_outcome(steps@),
{
    let mut i: usize = 0;
    proof {
        assert(steps@.skip(0) =~= steps@);
    }
    while i < steps.len()
        invariant
            i <= steps@.len(),
            combined_outcome(steps@) == combined_outcome(steps@.skip(i as int)),
        decreases steps@.len() - i,
    {
        let ghost rest = steps@.skip(i as int);
        proof {
            assert(rest[0] == steps@[i as int]);
            assert(rest.drop_first() =~= steps@.skip(i as int + 1));
        }
        match steps[i] {
            StepOutcome::Present => {
                return Ok(true);
            },
            StepOutcome::Absent => {},
            StepOutcome::Failed(reason) => {
                return Err(reason);
            },
        }
        i = i + 1;
    }
    proof {
        assert(steps@.skip(i as int) =~= Seq::<StepOutcome>::empty());
    }
    Ok(false)
}

/// The position of the first step that did not answer `Absent`, or the
/// length of the list when every step did.
pub open spec fn first_live_step(steps: Seq<StepOutcome>) -> int
    decreases steps.len(),
{
    if steps.len() == 0 {
        0
    } else if steps[0] == StepOutcome::Absent {
        1 + first_live_step(steps.drop_first())
    } else {
        0
    }
}

/// The first step that does not answer `Absent` wins: every step before it
/// answers `Absent`, and the combined verdict is that step's own — present
/// for a `Present` step, the failure of a `Failed` step — or absence when no
/// such step exists.
pub proof fn lemma_first_live_step_wins(steps: Seq<StepOutcome>)
    ensures
        0 <= first_live_step(steps) <= steps.len(),
        forall|j: int|
            0 <= j < first_live_step(steps) ==> #[trigger] steps[j] == StepOutcome::Absent,
        first_live_step(steps) == steps.len() ==> combined_outcome(steps) == Ok::<
            bool,
            FailureReason,
        >(false),
        first_live_step(steps) < steps.len() ==> steps[first_live_step(steps)]
            != StepOutcome::Absent && combined_outcome(steps) == (match steps[first_live_step(
            steps,
        )] {
            StepOutcome::Present => Ok::<bool, FailureReason>(true),
            StepOutcome::Failed(reason) => Err::<bool, FailureReason>(reason),
            StepOutcome::Absent => Ok::<bool, FailureReason>(false),
        }),
    decreases steps.len(),
{
    if steps.len() > 0 && steps[0] == StepOutcome::Absent {
        let t = steps.drop_first();
        lemma_first_live_step_wins(t);
        let f = first_live_step(steps);
        assert(f == 1 + first_live_step(t));
        assert forall|j: int| 0 <= j < f implies #[trigger] steps[j] == StepOutcome::Absent by {
            if j > 0 {
                assert(t[j - 1] == StepOutcome::Absent);
            }
        }
        if f < steps.len() {
            assert(steps[f] == t[f - 1]);
        }
    }
}

} // verus!
