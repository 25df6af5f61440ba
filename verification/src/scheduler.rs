//! The scheduler: admits tasks, hands them out in service order and applies
//! the outcome of each attempt.

use crate::adapter::{DryRun, ExecutionAdapter};
use crate::clock::unix_millis;
use crate::lifecycle::{attempted, dispatched, settled, Verdict};
use crate::order::{
    admitted, all_pending, in_service_order, lemma_admitted_keeps_pending, lemma_admitted_step,
};
use crate::queue::{QueueFull, TaskQueue};
use crate::task::{Task, TaskStatus, TaskView};
use vstd::prelude::*;

verus! {

/// The pending tasks once `task` has come back from an attempt: a task that
/// is pending again joins the queue, a task that is done does not.
pub open spec fn returned(pending: Seq<TaskView>, task: TaskView) -> Seq<TaskView> {
    if task.status == TaskStatus::Pending {
        admitted(pending, task)
    } else {
        pending
    }
}

/// One step of execution on the pending tasks, for an attempt that begins at
/// `now` and ends with `verdict`: the pending tasks afterwards, and the task
/// that was attempted as it stands after the attempt.
///
/// With nothing pending, nothing changes and no task is attempted.
pub open spec fn executed(pending: Seq<TaskView>, now: u64, verdict: Verdict) -> (
    Seq<TaskView>,
    Option<TaskView>,
) {
    if pending.len() == 0 {
        (pending, None)
    } else {
        let task = attempted(pending.first(), now, verdict);
        (returned(pending.drop_first(), task), Some(task))
    }
}

/// Admits tasks, serves them by priority and arrival, and moves each through
/// its life cycle according to the verdicts of its execution adapter.
pub struct TaskScheduler<A> {
    queue: TaskQueue,
    adapter: A,
}

impl TaskScheduler<DryRun> {
    /// A scheduler with an empty, unbounded queue and the dry-run adapter.
    pub fn new() -> (scheduler: Self)
        ensures
            scheduler.pending() == Seq::<TaskView>::empty(),
            scheduler.max_size().is_none(),
    {
        TaskScheduler { queue: TaskQueue::new(), adapter: DryRun }
    }
}

impl<A: ExecutionAdapter> TaskScheduler<A> {
    /// The pending tasks in the order in which they will be attempted.
    pub closed spec fn pending(&self) -> Seq<TaskView> {
        self.queue@
    }

    /// The largest number of pending tasks the scheduler admits, if bounded.
    pub closed spec fn max_size(&self) -> Option<usize> {
        self.queue.max_size()
    }

    /// Whether the capacity limit turns the next task down.
    pub open spec fn is_full(&self) -> bool {
        match self.max_size() {
            Some(limit) => self.pending().len() >= limit,
            None => false,
        }
    }

    /// A scheduler that serves the given queue through the given adapter.
    pub fn from_parts(queue: TaskQueue, adapter: A) -> (scheduler: Self)
        ensures
            scheduler.pending() == queue@,
            scheduler.max_size() == queue.max_size(),
            scheduler.adapter_state() == adapter,
    {
        TaskScheduler { queue, adapter }
    }

    /// The adapter that the scheduler hands payloads to.
    pub closed spec fn adapter_state(&self) -> A {
        self.adapter
    }

    /// The adapter that the scheduler hands payloads to.
    pub fn adapter(&self) -> (adapter: &A)
        ensures
            *adapter == self.adapter_state(),
    {
        &self.adapter
    }

    /// Takes the scheduler apart into its queue and its adapter.
    pub fn into_parts(self) -> (parts: (TaskQueue, A))
        ensures
            parts.0@ == self.pending(),
            parts.0.max_size() == self.max_size(),
            parts.1 == self.adapter_state(),
    {
        (self.queue, self.adapter)
    }

    /// Admits a task that a producer submits for the first time.
    ///
    /// Fails exactly when the queue is bounded and full; the task then comes
    /// back in the error and nothing changes. A scheduler without a limit
    /// must have room left in the `usize` that counts its pending tasks.
    pub fn schedule_task(&mut self, task: Task) -> (result: Result<(), QueueFull>)
        requires
            task@.status == TaskStatus::Pending,
            task@.retry_count == 0,
            old(self).max_size().is_none() ==> old(self).pending().len() < usize::MAX,
        ensures
            final(self).max_size() == old(self).max_size(),
            final(self).adapter_state() == old(self).adapter_state(),
            match result {
                Ok(_) => {
                    &&& !old(self).is_full()
                    &&& final(self).pending() == admitted(old(self).pending(), task@)
                    &&& final(self).pending().len() == old(self).pending().len() + 1
                },
                Err(full) => {
                    &&& old(self).is_full()
                    &&& final(self).pending() == old(self).pending()
                    &&& full.task@ == task@
                },
            },
            in_service_order(final(self).pending()),
            all_pending(final(self).pending()),
    {
        match self.queue.enqueue(task) {
            Err(full) => Err(full),
            Ok(_) => Ok(()),
        }
    }

    /// Takes the next task in service order out of the queue and marks it as
    /// in progress, its attempt beginning at `now`. Returns `None` when
    /// nothing is pending.
    pub fn dispatch_next(&mut self, now: u64) -> (next: Option<Task>)
        ensures
            final(self).max_size() == old(self).max_size(),
            final(self).adapter_state() == old(self).adapter_state(),
            match next {
                Some(task) => {
                    &&& old(self).pending().len() > 0
                    &&& task@ == dispatched(old(self).pending().first(), now)
                    &&& final(self).pending() == old(self).pending().drop_first()
                },
                None => old(self).pending().len() == 0 && final(self).pending() == old(
                    self,
                ).pending(),
            },
            old(self).pending().len() <= usize::MAX,
            in_service_order(final(self).pending()),
            all_pending(final(self).pending()),
    {
        match self.queue.dequeue() {
            Some(task) => Some(task.begin_attempt(now)),
            None => None,
        }
    }

    /// Applies the verdict of the attempt in progress to `task` and returns
    /// the task as it stands afterwards. A task that is pending again has
    /// been put back into the queue by the time this returns.
    pub fn resolve(&mut self, task: Task, verdict: &Verdict) -> (outcome: Task)
        requires
            task@.status == TaskStatus::InProgress,
            old(self).pending().len() < usize::MAX,
        ensures
            final(self).max_size() == old(self).max_size(),
            final(self).adapter_state() == old(self).adapter_state(),
            outcome@ == settled(task@, *verdict),
            final(self).pending() == returned(old(self).pending(), outcome@),
            final(self).pending().len() == old(self).pending().len() + (if outcome@.status
                == TaskStatus::Pending {
                1nat
            } else {
                0nat
            }),
    {
        let outcome = task.conclude(verdict);
        if outcome.status() == TaskStatus::Pending {
            self.queue.readmit(outcome.clone());
        }
        outcome
    }

    /// Attempts the next pending task: takes it out of the queue, marks it
    /// as in progress at the current time, hands its payload to the
    /// adapter and applies the verdict.
    ///
    /// Returns the task as it stands after the attempt, or `None` when
    /// nothing was pending; the adapter is then left alone. Otherwise the
    /// adapter makes one attempt, at the payload of the task that is first
    /// in service order, and the result is that of one step of execution
    /// for the verdict it gave and the time the clock read.
    pub fn execute_next(&mut self) -> (outcome: Option<Task>)
        ensures
            final(self).max_size() == old(self).max_size(),
            old(self).pending().len() == 0 ==> {
                &&& outcome.is_none()
                &&& final(self).pending() == old(self).pending()
                &&& final(self).adapter_state() == old(self).adapter_state()
            },
            old(self).pending().len() > 0 ==> outcome.is_some() && exists|
                now: u64,
                verdict: Verdict,
            |
                {
                    &&& old(self).adapter_state().may_answer(
                        old(self).pending().first().transaction_params,
                        verdict,
                        &final(self).adapter_state(),
                    )
                    &&& #[trigger] executed(old(self).pending(), now, verdict) == (
                        final(self).pending(),
                        Some(outcome.unwrap()@),
                    )
                },
            old(self).pending().len() > 0 ==> final(self).pending().len() + 1 == old(
                self,
            ).pending().len() + (if outcome.unwrap()@.status == TaskStatus::Pending {
                1nat
            } else {
                0nat
            }),
            in_service_order(final(self).pending()),
            all_pending(final(self).pending()),
    {
        let now = unix_millis();
        match self.dispatch_next(now) {
            None => None,
            Some(task) => {
                let verdict = self.adapter.attempt(task.transaction_params());
                let ghost waiting = self.pending();
                let outcome = self.resolve(task, &verdict);
                proof {
                    if outcome@.status == TaskStatus::Pending {
                        use_type_invariant(&outcome);
                        lemma_admitted_step(waiting, outcome@);
                        lemma_admitted_keeps_pending(waiting, outcome@);
                    }
                }
                assert(executed(old(self).pending(), now, verdict) == (
                    self.pending(),
                    Some(outcome@),
                ));
                Some(outcome)
            },
        }
    }

    /// The number of pending tasks. A task that is being attempted is not
    /// counted.
    pub fn get_pending_count(&self) -> (count: usize)
        ensures
            count == self.pending().len(),
            in_service_order(self.pending()),
            all_pending(self.pending()),
    {
        self.queue.len()
    }

    /// Whether no task is pending.
    pub fn is_empty(&self) -> (empty: bool)
        ensures
            empty == (self.pending().len() == 0),
    {
        self.queue.len() == 0
    }

    /// Discards every pending task without attempting it. A task that is
    /// being attempted is not in the queue and is not affected.
    pub fn clear_all(&mut self)
        ensures
            final(self).pending() == Seq::<TaskView>::empty(),
            final(self).max_size() == old(self).max_size(),
            final(self).adapter_state() == old(self).adapter_state(),
    {
        self.queue.clear();
    }
}

/// Once every pending task has been discarded, none is counted and a step
/// of execution finds nothing to attempt, whatever the time and the
/// verdict would have been.
pub proof fn law_cleared_has_nothing_to_execute(now: u64, verdict: Verdict)
    ensures
        Seq::<TaskView>::empty().len() == 0,
        executed(Seq::<TaskView>::empty(), now, verdict) == (
            Seq::<TaskView>::empty(),
            None::<TaskView>,
        ),
{
}

} // verus!
