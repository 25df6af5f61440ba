//! The task record: one unit of deferred work and its bookkeeping.

use crate::clock::unix_millis;
use crate::lifecycle::{dispatched, settled, Verdict};
use std::hash::{Hash, Hasher};
use vstd::prelude::*;
use vstd::std_specs::cmp::PartialEqSpecImpl;

verus! {

/// Where a task stands in its life cycle.
#[derive(Clone, Copy, Debug, PartialEq, Eq, Structural, Hash)]
pub enum TaskStatus {
    /// Waiting in the queue for a first or a repeated attempt.
    Pending,
    /// Handed out for an attempt whose outcome is not known yet.
    InProgress,
    /// Done: an attempt succeeded.
    Completed,
    /// Done: an attempt failed for good, or the retries are used up.
    Failed,
}

/// Urgency of a task. Higher tiers are always served before lower ones:
/// `Critical` before `High` before `Normal` before `Low`.
#[derive(Clone, Copy, Debug, PartialEq, Eq, Structural, Hash, PartialOrd, Ord)]
pub enum TaskPriority {
    Low,
    Normal,
    High,
    Critical,
}

impl TaskPriority {
    /// Position of the tier in the total order `Low < Normal < High < Critical`.
    pub open spec fn rank(self) -> nat {
        match self {
            TaskPriority::Low => 0,
            TaskPriority::Normal => 1,
            TaskPriority::High => 2,
            TaskPriority::Critical => 3,
        }
    }

    /// The tier's position as a number, `0` for `Low` up to `3` for `Critical`.
    pub fn level(self) -> (level: u8)
        ensures
            level == self.rank(),
    {
        match self {
            TaskPriority::Low => 0,
            TaskPriority::Normal => 1,
            TaskPriority::High => 2,
            TaskPriority::Critical => 3,
        }
    }
}

/// Number of retries a task is given unless told otherwise.
pub const DEFAULT_MAX_RETRIES: u8 = 3;

/// Length of a task identifier: 32 hexadecimal digits and 4 hyphens.
pub const TASK_ID_LEN: usize = 36;

/// The mathematical content of a [`Task`].
pub struct TaskView {
    pub id: Seq<char>,
    pub transaction_params: Seq<char>,
    pub status: TaskStatus,
    pub retry_count: u8,
    pub max_retries: u8,
    pub priority: TaskPriority,
    pub last_attempt: Option<u64>,
    pub created_at: u64,
}

impl TaskView {
    /// A record never counts more retries than it is allowed.
    pub open spec fn within_retry_limit(self) -> bool {
        self.retry_count <= self.max_retries
    }

    /// The record as a producer first submits it: waiting, never attempted.
    pub open spec fn is_fresh(self) -> bool {
        &&& self.status == TaskStatus::Pending
        &&& self.retry_count == 0
        &&& self.last_attempt.is_none()
    }

    /// No transition leaves `Completed` or `Failed`.
    pub open spec fn is_terminal(self) -> bool {
        self.status == TaskStatus::Completed || self.status == TaskStatus::Failed
    }
}

/// Whether the character is a hexadecimal digit in lower case.
pub open spec fn is_lower_hex(c: char) -> bool {
    ('0' <= c && c <= '9') || ('a' <= c && c <= 'f')
}

/// Whether a hyphen stands at the given place of a hyphenated identifier.
pub open spec fn is_hyphen_place(at: int) -> bool {
    at == 8 || at == 13 || at == 18 || at == 23
}

/// Shape of a hyphenated identifier of version 4: 36 characters, hyphens
/// closing the groups of 8, 4, 4 and 4 digits, hexadecimal digits in lower
/// case elsewhere, and the version digit `4` leading the third group.
pub open spec fn is_hyphenated_id(id: Seq<char>) -> bool {
    &&& id.len() == TASK_ID_LEN
    &&& forall|at: int|
        0 <= at < id.len() ==> if is_hyphen_place(at) {
            #[trigger] id[at] == '-'
        } else {
            is_lower_hex(id[at])
        }
    &&& id[14] == '4'
}

/// Draws a random version-4 UUID with `uuid::Uuid::new_v4` and prints it in
/// its default form. The draw gives up only when the operating system has
/// no randomness to give. The value is random; only the shape of the text
/// is claimed: 36 characters, hyphenated 8-4-4-4-12, in lower case, with
/// the version digit 4.
#[verifier::external_body]
fn random_task_id() -> (id: String)
    ensures
        is_hyphenated_id(id@),
{
    uuid::Uuid::new_v4().to_string()
}

/// One unit of deferred work: an opaque transaction payload together with
/// its priority, its retry budget and its place in the life cycle.
///
/// Two tasks are the same task exactly when their identifiers agree.
#[derive(Debug)]
pub struct Task {
    id: String,
    transaction_params: String,
    status: TaskStatus,
    retry_count: u8,
    max_retries: u8,
    priority: TaskPriority,
    last_attempt: Option<u64>,
    created_at: u64,
}

impl View for Task {
    type V = TaskView;

    closed spec fn view(&self) -> TaskView {
        TaskView {
            id: self.id@,
            transaction_params: self.transaction_params@,
            status: self.status,
            retry_count: self.retry_count,
            max_retries: self.max_retries,
            priority: self.priority,
            last_attempt: self.last_attempt,
            created_at: self.created_at,
        }
    }
}

impl Task {
    /// Holds of every task at all times: the retries counted stay within
    /// the retries allowed.
    #[verifier::type_invariant]
    pub open spec fn retry_count_in_limit(self) -> bool {
        self@.within_retry_limit()
    }

    /// Creates a pending task for the given serialized transaction
    /// parameters, with a fresh random identifier, normal priority and the
    /// default retry budget, stamped with the current time: the task that
    /// [`Task::fresh`] makes of a new identifier and a reading of the clock.
    pub fn new(transaction_params: String) -> (task: Task)
        ensures
            task@.transaction_params == transaction_params@,
            task@.is_fresh(),
            task@.max_retries == DEFAULT_MAX_RETRIES,
            task@.priority == TaskPriority::Normal,
            is_hyphenated_id(task@.id),
    {
        Task::fresh(random_task_id(), transaction_params, unix_millis())
    }

    /// The task as it is created for the given identifier and payload at
    /// the given time: pending, never attempted, of normal priority and with
    /// the default retry budget.
    pub fn fresh(id: String, transaction_params: String, created_at: u64) -> (task: Task)
        ensures
            task@ == (TaskView {
                id: id@,
                transaction_params: transaction_params@,
                status: TaskStatus::Pending,
                retry_count: 0,
                max_retries: DEFAULT_MAX_RETRIES,
                priority: TaskPriority::Normal,
                last_attempt: None,
                created_at,
            }),
    {
        Task {
            id,
            transaction_params,
            status: TaskStatus::Pending,
            retry_count: 0,
            max_retries: DEFAULT_MAX_RETRIES,
            priority: TaskPriority::Normal,
            last_attempt: None,
            created_at,
        }
    }

    /// Puts a task back together from its parts, as a record that was
    /// stored or sent elsewhere gives them. Returns `None` for parts that
    /// count more retries than they allow.
    pub fn from_parts(
        id: String,
        transaction_params: String,
        status: TaskStatus,
        retry_count: u8,
        max_retries: u8,
        priority: TaskPriority,
        last_attempt: Option<u64>,
        created_at: u64,
    ) -> (task: Option<Task>)
        ensures
            match task {
                Some(task) => retry_count <= max_retries && task@ == (TaskView {
                    id: id@,
                    transaction_params: transaction_params@,
                    status,
                    retry_count,
                    max_retries,
                    priority,
                    last_attempt,
                    created_at,
                }),
                None => retry_count > max_retries,
            },
    {
        if retry_count > max_retries {
            return None;
        }
        Some(
            Task {
                id,
                transaction_params,
                status,
                retry_count,
                max_retries,
                priority,
                last_attempt,
                created_at,
            },
        )
    }

    /// The identifier drawn when the task was created.
    pub fn id(&self) -> (id: &str)
        ensures
            id@ == self@.id,
    {
        self.id.as_str()
    }

    /// The serialized transaction parameters the task carries.
    pub fn transaction_params(&self) -> (payload: &str)
        ensures
            payload@ == self@.transaction_params,
    {
        self.transaction_params.as_str()
    }

    /// Where the task stands in its life cycle.
    pub fn status(&self) -> (status: TaskStatus)
        ensures
            status == self@.status,
    {
        self.status
    }

    /// The tier the task is served in.
    pub fn priority(&self) -> (priority: TaskPriority)
        ensures
            priority == self@.priority,
    {
        self.priority
    }

    /// How many retryable failures the task has been through. It never
    /// exceeds [`Task::max_retries`].
    pub fn retry_count(&self) -> (count: u8)
        ensures
            count == self@.retry_count,
            self@.within_retry_limit(),
    {
        proof {
            use_type_invariant(self);
        }
        self.retry_count
    }

    /// How many retryable failures the task may go through before it fails.
    pub fn max_retries(&self) -> (limit: u8)
        ensures
            limit == self@.max_retries,
            self@.within_retry_limit(),
    {
        proof {
            use_type_invariant(self);
        }
        self.max_retries
    }

    /// When the latest attempt began, in milliseconds since the Unix epoch;
    /// `None` before the first attempt.
    pub fn last_attempt(&self) -> (at: Option<u64>)
        ensures
            at == self@.last_attempt,
    {
        self.last_attempt
    }

    /// When the task was created, in milliseconds since the Unix epoch.
    pub fn created_at(&self) -> (at: u64)
        ensures
            at == self@.created_at,
    {
        self.created_at
    }

    /// The same task in another priority tier.
    pub fn with_priority(self, priority: TaskPriority) -> (task: Task)
        ensures
            task@ == (TaskView { priority, ..self@ }),
    {
        proof {
            use_type_invariant(&self);
        }
        Task {
            id: self.id,
            transaction_params: self.transaction_params,
            status: self.status,
            retry_count: self.retry_count,
            max_retries: self.max_retries,
            priority,
            last_attempt: self.last_attempt,
            created_at: self.created_at,
        }
    }

    /// The same task with another retry budget. The budget may not be set
    /// below the retries already counted.
    pub fn with_max_retries(self, max_retries: u8) -> (task: Task)
        requires
            self@.retry_count <= max_retries,
        ensures
            task@ == (TaskView { max_retries, ..self@ }),
    {
        Task {
            id: self.id,
            transaction_params: self.transaction_params,
            status: self.status,
            retry_count: self.retry_count,
            max_retries,
            priority: self.priority,
            last_attempt: self.last_attempt,
            created_at: self.created_at,
        }
    }

    /// Marks a pending task as handed out for an attempt that begins at
    /// `now`.
    pub(crate) fn begin_attempt(self, now: u64) -> (task: Task)
        requires
            self@.status == TaskStatus::Pending,
        ensures
            task@ == dispatched(self@, now),
    {
        proof {
            use_type_invariant(&self);
        }
        Task {
            id: self.id,
            transaction_params: self.transaction_params,
            status: TaskStatus::InProgress,
            retry_count: self.retry_count,
            max_retries: self.max_retries,
            priority: self.priority,
            last_attempt: Some(now),
            created_at: self.created_at,
        }
    }

    /// Ends the attempt in progress with the adapter's verdict.
    pub(crate) fn conclude(self, verdict: &Verdict) -> (task: Task)
        requires
            self@.status == TaskStatus::InProgress,
        ensures
            task@ == settled(self@, *verdict),
    {
        proof {
            use_type_invariant(&self);
        }
        let (status, retry_count) = match verdict {
            Verdict::Success => (TaskStatus::Completed, self.retry_count),
            Verdict::RetryableFailure(_) => if self.retry_count < self.max_retries {
                (TaskStatus::Pending, self.retry_count + 1)
            } else {
                (TaskStatus::Failed, self.retry_count)
            },
            Verdict::FatalFailure(_) => (TaskStatus::Failed, self.retry_count),
        };
        Task {
            id: self.id,
            transaction_params: self.transaction_params,
            status,
            retry_count,
            max_retries: self.max_retries,
            priority: self.priority,
            last_attempt: self.last_attempt,
            created_at: self.created_at,
        }
    }
}

impl Clone for Task {
    /// A copy that agrees with the task in every field, identifier
    /// included.
    fn clone(&self) -> (copy: Task)
        ensures
            copy@ == self@,
    {
        proof {
            use_type_invariant(self);
        }
        Task {
            id: self.id.clone(),
            transaction_params: self.transaction_params.clone(),
            status: self.status,
            retry_count: self.retry_count,
            max_retries: self.max_retries,
            priority: self.priority,
            last_attempt: self.last_attempt,
            created_at: self.created_at,
        }
    }
}

impl PartialEq for Task {
    /// Tasks are compared by identifier alone.
    fn eq(&self, other: &Task) -> (equal: bool) {
        self.id == other.id
    }
}

impl PartialEqSpecImpl for Task {
    open spec fn obeys_eq_spec() -> bool {
        true
    }

    open spec fn eq_spec(&self, other: &Task) -> bool {
        self@.id == other@.id
    }
}

impl Eq for Task {

}

impl Hash for Task {
    /// Feeds the identifier, the one field that equality looks at, to the
    /// hasher with `String::hash`.
    #[verifier::external_body]
    fn hash<H: Hasher>(&self, state: &mut H) {
        self.id.hash(state)
    }
}

} // verus!
