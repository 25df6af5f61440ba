//! The task queue: pending tasks, served highest tier first and, within a
//! tier, in the order they arrived.
//!
//! Strict priority means that a steady supply of urgent tasks keeps lower
//! tiers waiting for as long as it lasts; the queue does not age tasks.

use crate::order::{
    admitted, all_of_tier, all_pending, in_service_order, lemma_admitted_between,
};
use crate::task::{Task, TaskPriority, TaskStatus, TaskView};
use crossbeam::queue::SegQueue;
use vstd::prelude::*;

verus! {

/// `crossbeam::queue::SegQueue`, an unbounded first-in first-out queue.
#[verifier::external_type_specification]
#[verifier::external_body]
#[verifier::reject_recursive_types(T)]
pub struct ExSegQueue<T>(SegQueue<T>);

/// The tasks that a segment queue holds, oldest first.
pub uninterp spec fn queued(queue: &SegQueue<Task>) -> Seq<TaskView>;

/// `SegQueue::new` creates a queue that holds nothing.
#[verifier::external_body]
fn segment_queue() -> (queue: SegQueue<Task>)
    ensures
        queued(&queue) == Seq::<TaskView>::empty(),
{
    SegQueue::new()
}

/// `SegQueue::push` puts the task behind everything the queue holds. It
/// does not panic. The queue counts what it holds in a `usize`, so it is
/// not asked to hold more than that.
#[verifier::external_body]
fn push_back(queue: &mut SegQueue<Task>, task: Task)
    requires
        queued(old(queue)).len() < usize::MAX,
    ensures
        queued(final(queue)) == queued(old(queue)).push(task@),
    no_unwind
{
    queue.push(task)
}

/// `SegQueue::pop` takes the oldest task out of the queue and returns it, or
/// returns `None` and changes nothing when the queue is empty. It does not
/// panic.
#[verifier::external_body]
fn pop_front(queue: &mut SegQueue<Task>) -> (head: Option<Task>)
    ensures
        match head {
            Some(task) => {
                &&& queued(old(queue)).len() > 0
                &&& task@ == queued(old(queue)).first()
                &&& queued(final(queue)) == queued(old(queue)).drop_first()
            },
            None => {
                &&& queued(old(queue)).len() == 0
                &&& queued(final(queue)) == queued(old(queue))
            },
        },
    no_unwind
{
    queue.pop()
}

/// `SegQueue::len` counts the tasks in the queue. With no other thread at
/// work on the queue the count is exact.
#[verifier::external_body]
fn count(queue: &SegQueue<Task>) -> (len: usize)
    ensures
        len == queued(queue).len(),
{
    queue.len()
}

/// What the four tiers of a queue keep to: each holds pending tasks of its
/// own tier only, and together they hold no more than can be counted.
spec fn tiers_well_formed(
    critical: Seq<TaskView>,
    high: Seq<TaskView>,
    normal: Seq<TaskView>,
    low: Seq<TaskView>,
) -> bool {
    &&& all_of_tier(critical, TaskPriority::Critical)
    &&& all_of_tier(high, TaskPriority::High)
    &&& all_of_tier(normal, TaskPriority::Normal)
    &&& all_of_tier(low, TaskPriority::Low)
    &&& all_pending(critical)
    &&& all_pending(high)
    &&& all_pending(normal)
    &&& all_pending(low)
    &&& critical.len() + high.len() + normal.len() + low.len() <= usize::MAX
}

/// Tiers put one behind the other, highest first, are in service order.
proof fn lemma_tiers_in_service_order(
    critical: Seq<TaskView>,
    high: Seq<TaskView>,
    normal: Seq<TaskView>,
    low: Seq<TaskView>,
)
    requires
        tiers_well_formed(critical, high, normal, low),
    ensures
        in_service_order(critical + high + normal + low),
        all_pending(critical + high + normal + low),
{
}

/// A tier stays well formed when a pending task of that tier joins it.
proof fn lemma_push_keeps_tier(tier: Seq<TaskView>, task: TaskView)
    requires
        all_of_tier(tier, task.priority),
        all_pending(tier),
        task.status == TaskStatus::Pending,
        task.within_retry_limit(),
    ensures
        all_of_tier(tier.push(task), task.priority),
        all_pending(tier.push(task)),
{
}

/// A tier stays well formed when its oldest task leaves it.
proof fn lemma_pop_keeps_tier(tier: Seq<TaskView>, priority: TaskPriority)
    requires
        all_of_tier(tier, priority),
        all_pending(tier),
        tier.len() > 0,
    ensures
        all_of_tier(tier.drop_first(), priority),
        all_pending(tier.drop_first()),
{
    let rest = tier.drop_first();
    assert forall|i: int| 0 <= i < rest.len() implies (#[trigger] rest[i]).priority == priority
        && rest[i].status == TaskStatus::Pending && rest[i].within_retry_limit() by {
        assert(rest[i] == tier[i + 1]);
    }
}

/// The error of an admission that the capacity limit turned down. It hands
/// the task back to the producer.
#[derive(Debug)]
pub struct QueueFull {
    pub task: Task,
}

impl QueueFull {
    /// The task that was turned down, unchanged.
    pub fn into_task(self) -> (task: Task)
        ensures
            task@ == self.task@,
    {
        self.task
    }

    /// A description of the error for people.
    pub fn message(&self) -> (text: &'static str)
        ensures
            text@ == "Queue is bounded and it's full"@,
    {
        "Queue is bounded and it's full"
    }
}

/// Pending tasks in the order in which they will be served.
///
/// The view of a queue is that order: index `0` is served next.
pub struct TaskQueue {
    critical: SegQueue<Task>,
    high: SegQueue<Task>,
    normal: SegQueue<Task>,
    low: SegQueue<Task>,
    max_size: Option<usize>,
}

impl View for TaskQueue {
    type V = Seq<TaskView>;

    closed spec fn view(&self) -> Seq<TaskView> {
        queued(&self.critical) + queued(&self.high) + queued(&self.normal) + queued(&self.low)
    }
}

impl TaskQueue {
    #[verifier::type_invariant]
    spec fn tiers_hold_their_own(self) -> bool {
        tiers_well_formed(
            queued(&self.critical),
            queued(&self.high),
            queued(&self.normal),
            queued(&self.low),
        )
    }

    /// The largest number of tasks the queue admits, if it is bounded.
    pub closed spec fn max_size(&self) -> Option<usize> {
        self.max_size
    }

    /// Whether the capacity limit turns the next admission down: the queue
    /// is bounded and holds as many tasks as its limit allows.
    pub open spec fn is_full(&self) -> bool {
        match self.max_size() {
            Some(limit) => self@.len() >= limit,
            None => false,
        }
    }

    /// An empty queue without a capacity limit.
    pub fn new() -> (queue: TaskQueue)
        ensures
            queue@ == Seq::<TaskView>::empty(),
            queue.max_size().is_none(),
    {
        TaskQueue {
            critical: segment_queue(),
            high: segment_queue(),
            normal: segment_queue(),
            low: segment_queue(),
            max_size: None,
        }
    }

    /// An empty queue that admits at most `max_size` tasks at a time.
    pub fn bounded(max_size: usize) -> (queue: TaskQueue)
        ensures
            queue@ == Seq::<TaskView>::empty(),
            queue.max_size() == Some(max_size),
    {
        TaskQueue {
            critical: segment_queue(),
            high: segment_queue(),
            normal: segment_queue(),
            low: segment_queue(),
            max_size: Some(max_size),
        }
    }

    /// Admits a pending task, unless the queue is bounded and full.
    ///
    /// An admitted task takes its place behind every task of its own or a
    /// higher tier and ahead of every task of a lower one. A task that is
    /// turned down comes back in the error, and the queue stays as it was.
    ///
    /// A queue without a limit must have room left in the `usize` that
    /// counts its tasks.
    pub fn enqueue(&mut self, task: Task) -> (result: Result<(), QueueFull>)
        requires
            task@.status == TaskStatus::Pending,
            old(self).max_size().is_none() ==> old(self)@.len() < usize::MAX,
        ensures
            final(self).max_size() == old(self).max_size(),
            match result {
                Ok(_) => {
                    &&& !old(self).is_full()
                    &&& final(self)@ == admitted(old(self)@, task@)
                    &&& final(self)@.len() == old(self)@.len() + 1
                },
                Err(full) => {
                    &&& old(self).is_full()
                    &&& final(self)@ == old(self)@
                    &&& full.task@ == task@
                },
            },
            in_service_order(final(self)@),
            all_pending(final(self)@),
    {
        proof {
            use_type_invariant(&*self);
            use_type_invariant(&task);
        }
        if let Some(limit) = self.max_size {
            if self.len() >= limit {
                return Err(QueueFull { task });
            }
        }
        self.readmit(task);
        Ok(())
    }

    /// Takes the task that is first in service order out of the queue:
    /// the oldest task of the highest tier that has any. Returns `None`
    /// when the queue is empty.
    pub fn dequeue(&mut self) -> (next: Option<Task>)
        ensures
            final(self).max_size() == old(self).max_size(),
            match next {
                Some(task) => {
                    &&& old(self)@.len() > 0
                    &&& task@ == old(self)@.first()
                    &&& final(self)@ == old(self)@.drop_first()
                    &&& task@.status == TaskStatus::Pending
                },
                None => old(self)@.len() == 0 && final(self)@ == old(self)@,
            },
            old(self)@.len() <= usize::MAX,
            in_service_order(final(self)@),
            all_pending(final(self)@),
    {
        proof {
            use_type_invariant(&*self);
        }
        let ghost critical = queued(&self.critical);
        let ghost high = queued(&self.high);
        let ghost normal = queued(&self.normal);
        let ghost low = queued(&self.low);
        proof {
            if critical.len() > 0 {
                lemma_pop_keeps_tier(critical, TaskPriority::Critical);
            }
        }
        if let Some(task) = pop_front(&mut self.critical) {
            proof {
                assert((critical + high + normal + low).drop_first() =~= critical.drop_first()
                    + high + normal + low);
                lemma_tiers_in_service_order(critical.drop_first(), high, normal, low);
            }
            return Some(task);
        }
        proof {
            if high.len() > 0 {
                lemma_pop_keeps_tier(high, TaskPriority::High);
            }
        }
        if let Some(task) = pop_front(&mut self.high) {
            proof {
                assert((critical + high + normal + low).drop_first() =~= critical
                    + high.drop_first() + normal + low);
                lemma_tiers_in_service_order(critical, high.drop_first(), normal, low);
            }
            return Some(task);
        }
        proof {
            if normal.len() > 0 {
                lemma_pop_keeps_tier(normal, TaskPriority::Normal);
            }
        }
        if let Some(task) = pop_front(&mut self.normal) {
            proof {
                assert((critical + high + normal + low).drop_first() =~= critical + high
                    + normal.drop_first() + low);
                lemma_tiers_in_service_order(critical, high, normal.drop_first(), low);
            }
            return Some(task);
        }
        proof {
            if low.len() > 0 {
                lemma_pop_keeps_tier(low, TaskPriority::Low);
            }
        }
        if let Some(task) = pop_front(&mut self.low) {
            proof {
                assert((critical + high + normal + low).drop_first() =~= critical + high + normal
                    + low.drop_first());
                lemma_tiers_in_service_order(critical, high, normal, low.drop_first());
            }
            return Some(task);
        }
        proof {
            lemma_tiers_in_service_order(critical, high, normal, low);
        }
        None
    }

    /// Puts a task that is due for another attempt back into the queue.
    ///
    /// The capacity limit governs admission from producers; a task that
    /// comes back for a retry was admitted before and is not turned down.
    pub(crate) fn readmit(&mut self, task: Task)
        requires
            task@.status == TaskStatus::Pending,
            old(self)@.len() < usize::MAX,
        ensures
            final(self).max_size() == old(self).max_size(),
            final(self)@ == admitted(old(self)@, task@),
            final(self)@.len() == old(self)@.len() + 1,
            in_service_order(final(self)@),
            all_pending(final(self)@),
    {
        proof {
            use_type_invariant(&*self);
            use_type_invariant(&task);
        }
        let ghost critical = queued(&self.critical);
        let ghost high = queued(&self.high);
        let ghost normal = queued(&self.normal);
        let ghost low = queued(&self.low);
        match task.priority() {
            TaskPriority::Critical => {
                proof {
                    lemma_push_keeps_tier(critical, task@);
                    lemma_admitted_between(critical, high + normal + low, task@);
                    assert(critical + (high + normal + low) =~= critical + high + normal + low);
                    assert(critical.push(task@) + (high + normal + low) =~= critical.push(task@)
                        + high + normal + low);
                }
                push_back(&mut self.critical, task);
            },
            TaskPriority::High => {
                proof {
                    lemma_push_keeps_tier(high, task@);
                    lemma_admitted_between(critical + high, normal + low, task@);
                    assert((critical + high) + (normal + low) =~= critical + high + normal + low);
                    assert((critical + high).push(task@) + (normal + low) =~= critical
                        + high.push(task@) + normal + low);
                }
                push_back(&mut self.high, task);
            },
            TaskPriority::Normal => {
                proof {
                    lemma_push_keeps_tier(normal, task@);
                    lemma_admitted_between(critical + high + normal, low, task@);
                    assert((critical + high + normal).push(task@) + low =~= critical + high
                        + normal.push(task@) + low);
                }
                push_back(&mut self.normal, task);
            },
            TaskPriority::Low => {
                proof {
                    lemma_push_keeps_tier(low, task@);
                    lemma_admitted_between(
                        critical + high + normal + low,
                        Seq::<TaskView>::empty(),
                        task@,
                    );
                    assert(critical + high + normal + low + Seq::<TaskView>::empty() =~= critical
                        + high + normal + low);
                    assert((critical + high + normal + low).push(task@) + Seq::<TaskView>::empty()
                        =~= critical + high + normal + low.push(task@));
                }
                push_back(&mut self.low, task);
            },
        }
    }

    /// Discards every task in the queue. The capacity limit stays.
    pub fn clear(&mut self)
        ensures
            final(self)@ == Seq::<TaskView>::empty(),
            final(self).max_size() == old(self).max_size(),
    {
        while self.len() > 0
            invariant
                self.max_size() == old(self).max_size(),
            decreases self@.len(),
        {
            let _ = self.dequeue();
        }
        assert(self@ =~= Seq::<TaskView>::empty());
    }

    /// Whether no task is waiting.
    pub fn is_empty(&self) -> (empty: bool)
        ensures
            empty == (self@.len() == 0),
    {
        self.len() == 0
    }

    /// The largest number of tasks the queue admits at a time, or `None` if
    /// it is not bounded.
    pub fn capacity(&self) -> (limit: Option<usize>)
        ensures
            limit == self.max_size(),
    {
        self.max_size
    }

    /// The number of tasks waiting in the queue.
    pub fn len(&self) -> (len: usize)
        ensures
            len == self@.len(),
            in_service_order(self@),
            all_pending(self@),
    {
        proof {
            use_type_invariant(self);
            lemma_tiers_in_service_order(
                queued(&self.critical),
                queued(&self.high),
                queued(&self.normal),
                queued(&self.low),
            );
        }
        count(&self.critical) + count(&self.high) + count(&self.normal) + count(&self.low)
    }
}

} // verus!
