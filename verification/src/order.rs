//! Service order: the rule that places a task in a queue, and what follows
//! from it for the order in which tasks are served.

use crate::task::{TaskPriority, TaskStatus, TaskView};
use vstd::prelude::*;

verus! {

/// Where a task of the given tier joins a queue: behind the leading run of
/// tasks of its own or a higher tier.
pub open spec fn tier_end(queue: Seq<TaskView>, priority: TaskPriority) -> nat
    decreases queue.len(),
{
    if queue.len() == 0 || queue.first().priority.rank() < priority.rank() {
        0
    } else {
        1 + tier_end(queue.drop_first(), priority)
    }
}

/// The queue after it has admitted `task`.
pub open spec fn admitted(queue: Seq<TaskView>, task: TaskView) -> Seq<TaskView> {
    queue.insert(tier_end(queue, task.priority) as int, task)
}

/// No task stands behind one of a lower tier.
pub open spec fn in_service_order(queue: Seq<TaskView>) -> bool {
    forall|i: int, j: int|
        0 <= i < j < queue.len() ==> queue[i].priority.rank() >= queue[j].priority.rank()
}

/// Every task in the queue is waiting and within its retry budget.
pub open spec fn all_pending(queue: Seq<TaskView>) -> bool {
    forall|i: int|
        0 <= i < queue.len() ==> (#[trigger] queue[i]).status == TaskStatus::Pending
            && queue[i].within_retry_limit()
}

/// Every task in the sequence is of the given tier.
pub open spec fn all_of_tier(tasks: Seq<TaskView>, priority: TaskPriority) -> bool {
    forall|i: int| 0 <= i < tasks.len() ==> (#[trigger] tasks[i]).priority == priority
}

/// Behind a run of tasks that are all of the given tier or a higher one, the
/// joining place is that of the rest of the queue, moved by the run's length.
pub proof fn lemma_tier_end_skips(head: Seq<TaskView>, rest: Seq<TaskView>, priority: TaskPriority)
    requires
        forall|i: int|
            0 <= i < head.len() ==> (#[trigger] head[i]).priority.rank() >= priority.rank(),
    ensures
        tier_end(head + rest, priority) == head.len() + tier_end(rest, priority),
    decreases head.len(),
{
    if head.len() == 0 {
        assert(head + rest =~= rest);
    } else {
        assert((head + rest).first() == head[0]);
        assert((head + rest).drop_first() =~= head.drop_first() + rest);
        let tail = head.drop_first();
        assert forall|i: int| 0 <= i < tail.len() implies (#[trigger] tail[i]).priority.rank()
            >= priority.rank() by {
            assert(tail[i] == head[i + 1]);
        }
        lemma_tier_end_skips(tail, rest, priority);
    }
}

/// Admission puts the task between the tiers that are served no later than
/// its own and the tiers that are served after it.
pub proof fn lemma_admitted_between(
    ahead: Seq<TaskView>,
    behind: Seq<TaskView>,
    task: TaskView,
)
    requires
        forall|i: int|
            0 <= i < ahead.len() ==> (#[trigger] ahead[i]).priority.rank()
                >= task.priority.rank(),
        forall|i: int|
            0 <= i < behind.len() ==> (#[trigger] behind[i]).priority.rank()
                < task.priority.rank(),
    ensures
        admitted(ahead + behind, task) == ahead.push(task) + behind,
{
    lemma_tier_end_skips(ahead, behind, task.priority);
    assert(tier_end(behind, task.priority) == 0) by {
        if behind.len() > 0 {
            assert(behind.first() == behind[0]);
        }
    }
    assert((ahead + behind).insert(ahead.len() as int, task) =~= ahead.push(task) + behind);
}

/// The tasks of one tier, in the order in which they stand in the sequence.
pub open spec fn tier_of(tasks: Seq<TaskView>, priority: TaskPriority) -> Seq<TaskView> {
    tasks.filter(|task: TaskView| task.priority == priority)
}

/// The queue after it has admitted the tasks one after another, first to
/// last.
pub open spec fn admitted_all(queue: Seq<TaskView>, tasks: Seq<TaskView>) -> Seq<TaskView>
    decreases tasks.len(),
{
    if tasks.len() == 0 {
        queue
    } else {
        admitted(admitted_all(queue, tasks.drop_last()), tasks.last())
    }
}

/// The joining place lies within the queue; everything ahead of it is of the
/// given tier or a higher one, and the task at it, if there is one, is of a
/// lower tier.
pub proof fn lemma_tier_end_bounds(queue: Seq<TaskView>, priority: TaskPriority)
    ensures
        tier_end(queue, priority) <= queue.len(),
        forall|i: int|
            0 <= i < tier_end(queue, priority) ==> (#[trigger] queue[i]).priority.rank()
                >= priority.rank(),
        tier_end(queue, priority) < queue.len() ==> queue[tier_end(
            queue,
            priority,
        ) as int].priority.rank() < priority.rank(),
    decreases queue.len(),
{
    if queue.len() == 0 || queue.first().priority.rank() < priority.rank() {
    } else {
        let rest = queue.drop_first();
        let end = tier_end(queue, priority) as int;
        lemma_tier_end_bounds(rest, priority);
        assert forall|i: int| 0 <= i < end implies (#[trigger] queue[i]).priority.rank()
            >= priority.rank() by {
            if i > 0 {
                assert(queue[i] == rest[i - 1]);
            }
        }
        if end < queue.len() {
            assert(queue[end] == rest[end - 1]);
        }
    }
}

/// Filtering by a property that no element has leaves nothing.
proof fn lemma_tier_of_none(tasks: Seq<TaskView>, priority: TaskPriority)
    requires
        forall|i: int| 0 <= i < tasks.len() ==> (#[trigger] tasks[i]).priority != priority,
    ensures
        tier_of(tasks, priority) == Seq::<TaskView>::empty(),
    decreases tasks.len(),
{
    reveal(Seq::filter);
    if tasks.len() > 0 {
        lemma_tier_of_none(tasks.drop_last(), priority);
    }
}

/// Admission into a queue in service order, step by step.
///
/// The queue stays in service order and gains the task and nothing else.
/// Within the task's own tier the task comes last; every other tier is left
/// as it was.
pub proof fn lemma_admitted_step(queue: Seq<TaskView>, task: TaskView)
    requires
        in_service_order(queue),
    ensures
        in_service_order(admitted(queue, task)),
        admitted(queue, task).len() == queue.len() + 1,
        admitted(queue, task).to_multiset() == queue.to_multiset().insert(task),
        tier_of(admitted(queue, task), task.priority) == tier_of(queue, task.priority).push(task),
        forall|priority: TaskPriority|
            priority != task.priority ==> #[trigger] tier_of(admitted(queue, task), priority)
                == tier_of(queue, priority),
{
    let at = tier_end(queue, task.priority) as int;
    lemma_tier_end_bounds(queue, task.priority);
    let ahead = queue.subrange(0, at);
    let behind = queue.subrange(at, queue.len() as int);
    assert(queue =~= ahead + behind);
    assert forall|i: int| 0 <= i < behind.len() implies (#[trigger] behind[i]).priority.rank()
        < task.priority.rank() by {
        assert(behind[i] == queue[at + i]);
    }
    lemma_admitted_between(ahead, behind, task);
    let after = admitted(queue, task);
    assert(after == ahead.push(task) + behind);
    assert(in_service_order(after)) by {
        assert forall|i: int, j: int| 0 <= i < j < after.len() implies after[i].priority.rank()
            >= after[j].priority.rank() by {
            if i < at && j > at {
                assert(after[i] == queue[i]);
                assert(after[j] == queue[j - 1]);
            } else if i < at && j < at {
                assert(after[i] == queue[i]);
                assert(after[j] == queue[j]);
            } else if i == at {
                assert(after[j] == behind[j - at - 1]);
            } else if j == at {
                assert(after[i] == queue[i]);
            } else {
                assert(after[i] == queue[i - 1]);
                assert(after[j] == queue[j - 1]);
            }
        }
    }
    vstd::seq_lib::to_multiset_insert(queue, at, task);
    assert forall|priority: TaskPriority|
        true implies #[trigger] tier_of(after, priority) == (if priority == task.priority {
        tier_of(queue, priority).push(task)
    } else {
        tier_of(queue, priority)
    }) by {
        let in_tier = |other: TaskView| other.priority == priority;
        let one = Seq::<TaskView>::empty().push(task);
        assert(ahead.push(task) =~= ahead + one);
        Seq::filter_distributes_over_add(ahead, behind, in_tier);
        Seq::filter_distributes_over_add(ahead + one, behind, in_tier);
        Seq::filter_distributes_over_add(ahead, one, in_tier);
        assert(one.filter(in_tier) =~= (if priority == task.priority {
            one
        } else {
            Seq::<TaskView>::empty()
        })) by {
            reveal_with_fuel(Seq::filter, 2);
            assert(one.drop_last() =~= Seq::<TaskView>::empty());
        }
        if priority == task.priority {
            lemma_tier_of_none(behind, priority);
            assert(ahead.filter(in_tier) + one + Seq::<TaskView>::empty() =~= (ahead.filter(
                in_tier,
            ) + Seq::<TaskView>::empty()).push(task));
        } else {
            assert(ahead.filter(in_tier) + Seq::<TaskView>::empty() + behind.filter(in_tier)
                =~= ahead.filter(in_tier) + behind.filter(in_tier));
        }
    }
}

/// A queue of pending tasks that admits a pending task holds pending tasks.
pub proof fn lemma_admitted_keeps_pending(queue: Seq<TaskView>, task: TaskView)
    requires
        all_pending(queue),
        task.status == TaskStatus::Pending,
        task.within_retry_limit(),
    ensures
        all_pending(admitted(queue, task)),
{
    lemma_tier_end_bounds(queue, task.priority);
    let at = tier_end(queue, task.priority) as int;
    assert forall|i: int| 0 <= i < admitted(queue, task).len() implies (#[trigger] admitted(
        queue,
        task,
    )[i]).status == TaskStatus::Pending && admitted(queue, task)[i].within_retry_limit() by {
        if i < at {
            assert(admitted(queue, task)[i] == queue[i]);
        } else if i > at {
            assert(admitted(queue, task)[i] == queue[i - 1]);
        }
    }
}

/// Tasks admitted one after another into an empty queue are served highest
/// tier first and, within each tier, in the order in which they arrived.
///
/// The queue then holds exactly the tasks that arrived; no task stands
/// behind one of a lower tier; and restricted to any one tier, the order of
/// service is the order of arrival.
pub proof fn law_priority_then_arrival(arrivals: Seq<TaskView>)
    ensures
        admitted_all(Seq::empty(), arrivals).len() == arrivals.len(),
        admitted_all(Seq::empty(), arrivals).to_multiset() == arrivals.to_multiset(),
        in_service_order(admitted_all(Seq::empty(), arrivals)),
        forall|priority: TaskPriority| #[trigger]
            tier_of(admitted_all(Seq::empty(), arrivals), priority) == tier_of(arrivals, priority),
    decreases arrivals.len(),
{
    reveal(Seq::filter);
    if arrivals.len() == 0 {
        assert(arrivals =~= Seq::<TaskView>::empty());
    } else {
        let earlier = arrivals.drop_last();
        let last = arrivals.last();
        law_priority_then_arrival(earlier);
        let queue = admitted_all(Seq::empty(), earlier);
        lemma_admitted_step(queue, last);
        assert(arrivals =~= earlier.push(last));
        vstd::seq_lib::to_multiset_build(earlier, last);
        assert forall|priority: TaskPriority| #[trigger]
            tier_of(admitted_all(Seq::empty(), arrivals), priority) == tier_of(
                arrivals,
                priority,
            ) by {
            assert(tier_of(queue, priority) == tier_of(earlier, priority));
            if priority != last.priority {
                assert(tier_of(admitted(queue, last), priority) == tier_of(queue, priority));
            }
        }
    }
}

} // verus!
