//! The life cycle of a task: the states it moves through and the rule that
//! decides, from the outcome of one attempt, where it goes next.

use crate::task::{TaskStatus, TaskView};
use vstd::prelude::*;

verus! {

/// What an execution adapter reports after one attempt at a task.
#[derive(Debug, Clone, PartialEq, Eq)]
pub enum Verdict {
    /// The transaction went through.
    Success,
    /// The attempt failed for a transient reason and may be repeated.
    RetryableFailure(String),
    /// The attempt failed for good.
    FatalFailure(String),
}

/// The record once it has been handed out for an attempt at time `now`.
pub open spec fn dispatched(task: TaskView, now: u64) -> TaskView {
    TaskView { status: TaskStatus::InProgress, last_attempt: Some(now), ..task }
}

/// The record once the attempt in progress has ended with `verdict`.
///
/// A success completes the task. A retryable failure sends it back to
/// `Pending` with one more retry on its count while retries remain, and
/// fails it once they are used up. A fatal failure fails it at once.
pub open spec fn settled(task: TaskView, verdict: Verdict) -> TaskView {
    match verdict {
        Verdict::Success => TaskView { status: TaskStatus::Completed, ..task },
        Verdict::RetryableFailure(_) => if task.retry_count < task.max_retries {
            TaskView {
                status: TaskStatus::Pending,
                retry_count: (task.retry_count + 1) as u8,
                ..task
            }
        } else {
            TaskView { status: TaskStatus::Failed, ..task }
        },
        Verdict::FatalFailure(_) => TaskView { status: TaskStatus::Failed, ..task },
    }
}

/// One whole attempt: dispatch at `now`, then settle with `verdict`.
pub open spec fn attempted(task: TaskView, now: u64, verdict: Verdict) -> TaskView {
    settled(dispatched(task, now), verdict)
}

/// The record after a run of attempts, each given by the time it begins and
/// the verdict it ends with. Attempts are made while the task is pending;
/// once it is done the rest of the run is not made.
pub open spec fn after_attempts(task: TaskView, attempts: Seq<(u64, Verdict)>) -> TaskView
    decreases attempts.len(),
{
    if attempts.len() == 0 || task.status != TaskStatus::Pending {
        task
    } else {
        after_attempts(
            attempted(task, attempts.first().0, attempts.first().1),
            attempts.drop_first(),
        )
    }
}

/// An attempt leaves the identifier, the payload, the priority, the retry
/// budget and the time of creation as they were, and keeps the retry count
/// within the budget.
pub proof fn law_attempt_keeps_identity(task: TaskView, now: u64, verdict: Verdict)
    requires
        task.within_retry_limit(),
    ensures
        attempted(task, now, verdict).id == task.id,
        attempted(task, now, verdict).transaction_params == task.transaction_params,
        attempted(task, now, verdict).priority == task.priority,
        attempted(task, now, verdict).max_retries == task.max_retries,
        attempted(task, now, verdict).created_at == task.created_at,
        attempted(task, now, verdict).last_attempt == Some(now),
        attempted(task, now, verdict).within_retry_limit(),
        attempted(task, now, verdict).status != TaskStatus::InProgress,
{
}

/// Where an attempt leaves a task: completed exactly on success, pending
/// again exactly on a transient failure with retries left, and failed
/// exactly on a failure for good or a transient failure with the retry
/// budget used up.
pub proof fn law_attempt_outcomes(task: TaskView, now: u64, verdict: Verdict)
    requires
        task.within_retry_limit(),
    ensures
        attempted(task, now, verdict).status == TaskStatus::Failed <==> (verdict is FatalFailure
            || (verdict is RetryableFailure && task.retry_count == task.max_retries)),
        attempted(task, now, verdict).status == TaskStatus::Completed <==> verdict is Success,
        attempted(task, now, verdict).status == TaskStatus::Pending <==> (verdict
            is RetryableFailure && task.retry_count < task.max_retries),
{
}

/// However a run of attempts goes, the retry count never exceeds the retry
/// budget, and the budget does not change.
pub proof fn law_retry_count_never_exceeds(task: TaskView, attempts: Seq<(u64, Verdict)>)
    requires
        task.within_retry_limit(),
    ensures
        after_attempts(task, attempts).within_retry_limit(),
        after_attempts(task, attempts).max_retries == task.max_retries,
        after_attempts(task, attempts).id == task.id,
    decreases attempts.len(),
{
    if attempts.len() == 0 || task.status != TaskStatus::Pending {
    } else {
        law_retry_count_never_exceeds(
            attempted(task, attempts.first().0, attempts.first().1),
            attempts.drop_first(),
        );
    }
}

/// No transition leaves `Completed` or `Failed`: a task that is done stays
/// as it is, whatever attempts a run names.
pub proof fn law_done_is_final(task: TaskView, attempts: Seq<(u64, Verdict)>)
    requires
        task.is_terminal(),
    ensures
        after_attempts(task, attempts) == task,
{
}

/// A pending task whose next attempts all fail for a transient reason, as
/// many of them as it has retries left, is pending after them with its
/// retry budget used up.
proof fn lemma_retries_use_up_budget(task: TaskView, attempts: Seq<(u64, Verdict)>, failures: nat)
    requires
        task.status == TaskStatus::Pending,
        task.within_retry_limit(),
        failures == task.max_retries - task.retry_count,
        failures <= attempts.len(),
        forall|i: int| 0 <= i < failures ==> (#[trigger] attempts[i]).1 is RetryableFailure,
    ensures
        after_attempts(task, attempts) == after_attempts(
            TaskView {
                status: TaskStatus::Pending,
                retry_count: task.max_retries,
                last_attempt: if failures == 0 {
                    task.last_attempt
                } else {
                    Some(attempts[failures - 1].0)
                },
                ..task
            },
            attempts.subrange(failures as int, attempts.len() as int),
        ),
    decreases failures,
{
    if failures == 0 {
        assert(attempts.subrange(0, attempts.len() as int) =~= attempts);
    } else {
        let next = attempted(task, attempts.first().0, attempts.first().1);
        let rest = attempts.drop_first();
        assert(attempts[0].1 is RetryableFailure);
        assert forall|i: int| 0 <= i < failures - 1 implies (#[trigger] rest[i]).1
            is RetryableFailure by {
            assert(rest[i] == attempts[i + 1]);
        }
        lemma_retries_use_up_budget(next, rest, (failures - 1) as nat);
        assert(rest.subrange(failures - 1, rest.len() as int) =~= attempts.subrange(
            failures as int,
            attempts.len() as int,
        ));
        if failures > 1 {
            assert(rest[failures - 2] == attempts[failures - 1]);
        }
    }
}

/// A fresh task that fails for a transient reason exactly as often as its
/// retry budget allows and then succeeds ends completed, with a retry count
/// equal to the budget.
pub proof fn law_success_after_all_retries(task: TaskView, attempts: Seq<(u64, Verdict)>)
    requires
        task.status == TaskStatus::Pending,
        task.retry_count == 0,
        attempts.len() == task.max_retries + 1,
        forall|i: int| 0 <= i < task.max_retries ==> (#[trigger] attempts[i]).1 is RetryableFailure,
        attempts[task.max_retries as int].1 is Success,
    ensures
        after_attempts(task, attempts).status == TaskStatus::Completed,
        after_attempts(task, attempts).retry_count == task.max_retries,
{
    lemma_retries_use_up_budget(task, attempts, task.max_retries as nat);
    let last = attempts.subrange(task.max_retries as int, attempts.len() as int);
    assert(last.first() == attempts[task.max_retries as int]);
    assert(last.drop_first().len() == 0);
    reveal_with_fuel(after_attempts, 2);
}

/// A fresh task that fails for a transient reason more often than its retry
/// budget allows ends failed, with a retry count equal to the budget,
/// whatever attempts the run goes on to name.
pub proof fn law_failure_after_too_many_retries(task: TaskView, attempts: Seq<(u64, Verdict)>)
    requires
        task.status == TaskStatus::Pending,
        task.retry_count == 0,
        attempts.len() > task.max_retries,
        forall|i: int|
            0 <= i <= task.max_retries ==> (#[trigger] attempts[i]).1 is RetryableFailure,
    ensures
        after_attempts(task, attempts).status == TaskStatus::Failed,
        after_attempts(task, attempts).retry_count == task.max_retries,
{
    lemma_retries_use_up_budget(task, attempts, task.max_retries as nat);
    let rest = attempts.subrange(task.max_retries as int, attempts.len() as int);
    assert(rest.first() == attempts[task.max_retries as int]);
    reveal_with_fuel(after_attempts, 2);
}

/// A fresh task whose first attempt fails for good ends failed without a
/// single retry on its count, whatever attempts the run goes on to name.
pub proof fn law_fatal_failure_is_final(task: TaskView, attempts: Seq<(u64, Verdict)>)
    requires
        task.status == TaskStatus::Pending,
        task.retry_count == 0,
        attempts.len() > 0,
        attempts[0].1 is FatalFailure,
    ensures
        after_attempts(task, attempts).status == TaskStatus::Failed,
        after_attempts(task, attempts).retry_count == 0,
{
    reveal_with_fuel(after_attempts, 2);
}

} // verus!
