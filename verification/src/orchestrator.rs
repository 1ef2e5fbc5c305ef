//! Aggregation of concurrent task outcomes. The driver spawns one unit of
//! work per task and collects completions in arrival order; the functions
//! here classify each completion and tally the whole run, so that no
//! outcome is ever escalated into aborting a sibling task.

use vstd::prelude::*;

verus! {

/// How one unit of work ended.
#[derive(Clone, Copy, Debug, PartialEq, Eq, Structural)]
pub enum UnitOutcome {
    /// The unit ran and its task's state machine returned success.
    Succeeded,
    /// The unit itself failed to execute (it crashed or was cancelled).
    ExecutionFailed,
    /// The unit ran and its task returned an unrecoverable error.
    LogicError,
}

/// Classify one completion: whether the unit of work itself executed, and
/// if it did, whether the task it ran reported success.
pub fn classify_outcome(unit_executed: bool, task_succeeded: bool) -> (r: UnitOutcome)
    ensures
        !unit_executed ==> r == UnitOutcome::ExecutionFailed,
        unit_executed && task_succeeded ==> r == UnitOutcome::Succeeded,
        unit_executed && !task_succeeded ==> r == UnitOutcome::LogicError,
{
    if !unit_executed {
        UnitOutcome::ExecutionFailed
    } else if task_succeeded {
        UnitOutcome::Succeeded
    } else {
        UnitOutcome::LogicError
    }
}

/// How often an outcome occurs in a run.
pub open spec fn count_outcomes(s: Seq<UnitOutcome>, o: UnitOutcome) -> int
    decreases s.len(),
{
    if s.len() == 0 {
        0
    } else {
        count_outcomes(s.drop_last(), o) + if s.last() == o {
            1int
        } else {
            0int
        }
    }
}

/// The tally of a whole run.
pub struct RunSummary {
    pub succeeded: usize,
    pub execution_failed: usize,
    pub logic_errors: usize,
}

/// Tally a run's outcomes: each completion counts toward exactly one of
/// the three classes, so the classes sum to the number of completions.
pub fn summarize_outcomes(outcomes: &Vec<UnitOutcome>) -> (r: RunSummary)
    ensures
        r.succeeded == count_outcomes(outcomes@, UnitOutcome::Succeeded),
        r.execution_failed == count_outcomes(outcomes@, UnitOutcome::ExecutionFailed),
        r.logic_errors == count_outcomes(outcomes@, UnitOutcome::LogicError),
        r.succeeded + r.execution_failed + r.logic_errors == outcomes@.len(),
{
    let mut succeeded: usize = 0;
    let mut execution_failed: usize = 0;
    let mut logic_errors: usize = 0;
    let mut i: usize = 0;
    while i < outcomes.len()
        invariant
            0 <= i <= outcomes@.len(),
            succeeded == count_outcomes(outcomes@.take(i as int), UnitOutcome::Succeeded),
            execution_failed == count_outcomes(
                outcomes@.take(i as int),
                UnitOutcome::ExecutionFailed,
            ),
            logic_errors == count_outcomes(outcomes@.take(i as int), UnitOutcome::LogicError),
            succeeded + execution_failed + logic_errors == i,
        decreases outcomes@.len() - i,
    {
        proof {
            let p = outcomes@.take(i + 1);
            assert(p.drop_last() =~= outcomes@.take(i as int));
            assert(p.last() == outcomes@[i as int]);
        }
        match outcomes[i] {
            UnitOutcome::Succeeded => {
                succeeded = succeeded + 1;
            },
            UnitOutcome::ExecutionFailed => {
                execution_failed = execution_failed + 1;
            },
            UnitOutcome::LogicError => {
                logic_errors = logic_errors + 1;
            },
        }
        i = i + 1;
    }
    proof {
        assert(outcomes@.take(outcomes@.len() as int) =~= outcomes@);
    }
    RunSummary { succeeded, execution_failed, logic_errors }
}

} // verus!
