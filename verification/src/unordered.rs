use vstd::prelude::*;

verus! {

/// The outcome of one detached unit of work, as the scheduler reports it:
/// either the unit ran to the end and produced a result, or the task
/// carrying it failed irrecoverably (it crashed before producing anything).
/// A unit's own logical failure is not a task failure: the unit still
/// produces a result (a sentinel) in that case.
pub enum TaskOutcome<T> {
    Done(T),
    TaskFailed,
}

/// The fatal error of an unordered collection: the task at the given
/// position of the completion order failed irrecoverably, and consumption
/// stopped there.
pub struct SchedulerFailure {
    pub position: usize,
}

/// The result of the unit behind `outcomes[i]`, for outcomes that are all
/// `Done`.
pub open spec fn done_values<T>(outcomes: Seq<TaskOutcome<T>>) -> Seq<T> {
    Seq::new(outcomes.len(), |i: int| outcomes[i]->Done_0)
}

/// Consumes the outcomes of a batch of detached units in the order the
/// scheduler delivered them (first finished, first consumed) and yields
/// each result as it arrives: exactly one per unit, no reordering, no
/// duplication, no omission. A task-level failure is fatal: consumption
/// stops at the first one and the error names its position; results are
/// never silently skipped.
pub fn collect_unordered<T: Copy>(outcomes: &Vec<TaskOutcome<T>>) -> (r: Result<
    Vec<T>,
    SchedulerFailure,
>)
    ensures
        match r {
            Ok(out) => {
                &&& forall|i: int| 0 <= i < outcomes@.len() ==> outcomes@[i] is Done
                &&& out@ == done_values(outcomes@)
                &&& out@.len() == outcomes@.len()
            },
            Err(e) => {
                &&& e.position < outcomes@.len()
                &&& outcomes@[e.position as int] is TaskFailed
                &&& forall|i: int| 0 <= i < e.position ==> outcomes@[i] is Done
            },
        },
{
    let n: usize = outcomes.len();
    let mut out: Vec<T> = Vec::new();
    let mut k: usize = 0;
    while k < n
        invariant
            n == outcomes@.len(),
            k <= n,
            out@.len() == k,
            forall|i: int| 0 <= i < k ==> outcomes@[i] is Done,
            forall|i: int| 0 <= i < k ==> out@[i] == outcomes@[i]->Done_0,
        decreases n - k,
    {
        match &outcomes[k] {
            TaskOutcome::Done(v) => {
                out.push(*v);
            },
            TaskOutcome::TaskFailed => {
                return Err(SchedulerFailure { position: k });
            },
        }
        k = k + 1;
    }
    proof {
        assert(out@ =~= done_values(outcomes@));
    }
    Ok(out)
}

} // verus!
