//! The parameters of the transactions that tasks stand for. A producer
//! serializes one of these into the payload of a task; the scheduler never
//! looks inside.

use solana_sdk::pubkey::Pubkey;
use vstd::prelude::*;

verus! {

/// The parameters of one transaction, by kind.
#[derive(Debug, Clone, PartialEq, Eq)]
pub enum TransactionParams {
    Transfer(TransferParams),
    CreateAccount(CreateAccountParams),
    BatchTransfer(BatchTransferParams),
}

/// A transfer of lamports from one account to another.
#[derive(Debug, Clone, PartialEq, Eq)]
pub struct TransferParams {
    pub from: Pubkey,
    pub to: Pubkey,
    pub lamports: u64,
}

/// The creation of a new account, paid for by `payer` and owned by `owner`.
#[derive(Debug, Clone, PartialEq, Eq)]
pub struct CreateAccountParams {
    pub payer: Pubkey,
    pub new_account: Pubkey,
    pub owner: Pubkey,
    pub lamports: u64,
    pub space: u64,
}

/// Several transfers from one account in a single transaction.
#[derive(Debug, Clone, PartialEq, Eq)]
pub struct BatchTransferParams {
    pub from: Pubkey,
    pub transfers: Vec<(Pubkey, u64)>,
}

} // verus!
