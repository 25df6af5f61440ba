//! Transactions: the parameters that a task's payload describes, and the
//! builder that turns instructions into a signed transaction.

pub mod builder;
pub mod instruction;
pub mod params;

pub use builder::TransactionBuilder;
pub use instruction::{AccountMeta, Instruction};
pub use params::{BatchTransferParams, CreateAccountParams, TransactionParams, TransferParams};
