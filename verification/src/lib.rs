//! A priority task scheduler for deferred blockchain transactions.
//!
//! Producers describe a transaction as an opaque payload, wrap it in a
//! [`Task`] and hand it to a [`TaskScheduler`]. The scheduler admits tasks
//! into a bounded [`TaskQueue`], serves them by priority tier and arrival
//! order, hands each payload to an [`ExecutionAdapter`] and moves the task
//! through its life cycle according to the adapter's [`Verdict`].
//!
//! Beside the scheduler stand the two collaborators of an adapter: the
//! [`WalletManager`], which keeps key pairs under names, and the
//! [`transaction::TransactionBuilder`], which turns instructions into a
//! signed transaction.

pub mod adapter;
pub mod clock;
pub mod lifecycle;
pub mod order;
pub mod queue;
pub mod scheduler;
pub mod solana;
pub mod task;
pub mod transaction;
pub mod wallet;

pub use adapter::{DryRun, ExecutionAdapter};
pub use lifecycle::Verdict;
pub use queue::{QueueFull, TaskQueue};
pub use scheduler::TaskScheduler;
pub use task::{Task, TaskPriority, TaskStatus, TaskView};
pub use wallet::WalletManager;
