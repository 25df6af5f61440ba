//! The wallet inventory: named key pairs.

pub mod manager;
pub mod naming;

pub use manager::{TaskGroup, WalletManager};
