//! The types and functions of the Solana SDK that the library builds on.
//! Their contracts are taken on trust from the SDK's source.

use crate::transaction::instruction::{fits_a_message, AccountMeta, Instruction};
use solana_sdk::instruction::{AccountMeta as SdkAccountMeta, Instruction as SdkInstruction};
use solana_sdk::pubkey::Pubkey;
use solana_sdk::signature::{Keypair, Signer};
use solana_sdk::signer::SignerError;
use solana_sdk::transaction::Transaction;
use solana_system_interface::instruction::{create_account, transfer};
use vstd::prelude::*;

verus! {

/// `solana_pubkey::Pubkey`, the address of an account: 32 opaque bytes.
#[verifier::external_type_specification]
#[verifier::external_body]
pub struct ExPubkey(Pubkey);

/// `solana_keypair::Keypair`, an Ed25519 key pair.
#[verifier::external_type_specification]
#[verifier::external_body]
pub struct ExKeypair(Keypair);

/// `solana_hash::Hash`, the hash of a block: 32 opaque bytes.
#[verifier::external_type_specification]
#[verifier::external_body]
pub struct ExHash(solana_sdk::hash::Hash);

/// The hash of a recent block, which a transaction refers to.
pub type Blockhash = solana_sdk::hash::Hash;

/// `solana_transaction::Transaction`, a message with its signatures.
#[verifier::external_type_specification]
#[verifier::external_body]
pub struct ExTransaction(Transaction);

/// `solana_signer::SignerError`, the reason why signing failed.
#[verifier::external_type_specification]
#[verifier::external_body]
pub struct ExSignerError(SignerError);

/// `Pubkey::clone` copies the 32 bytes: the copy is the same address.
pub assume_specification[ <Pubkey as Clone>::clone ](key: &Pubkey) -> (copy: Pubkey)
    ensures
        copy == *key,
;

/// `Pubkey::eq` compares the 32 bytes: it holds of the same address and of
/// no other.
pub assume_specification[ <Pubkey as PartialEq>::eq ](left: &Pubkey, right: &Pubkey) -> (same:
    bool)
    ensures
        same == (*left == *right),
;

/// `Keypair::new` draws a key pair from the operating system's source of
/// randomness, and gives up only when that source does. Nothing is claimed
/// of the keys.
#[verifier::external_body]
pub(crate) fn generate_keypair() -> (keypair: Keypair) {
    Keypair::new()
}

/// `Signer::pubkey` of a key pair gives the address that belongs to it.
/// Nothing is claimed of the address.
#[verifier::external_body]
pub(crate) fn keypair_pubkey(keypair: &Keypair) -> (pubkey: Pubkey) {
    keypair.pubkey()
}

/// `solana_system_interface::instruction::transfer` builds the instruction
/// that moves lamports from one account to another. It names two accounts:
/// the source, which signs and is written to, and the destination, which is
/// written to.
#[verifier::external_body]
pub(crate) fn system_transfer(
    from: &Pubkey,
    to: &Pubkey,
    lamports: u64,
) -> (instruction: Instruction)
    ensures
        instruction.accounts@.len() == 2,
        instruction.accounts@[0] == (AccountMeta {
            pubkey: *from,
            is_signer: true,
            is_writable: true,
        }),
        instruction.accounts@[1] == (AccountMeta {
            pubkey: *to,
            is_signer: false,
            is_writable: true,
        }),
{
    let built = transfer(from, to, lamports);
    let accounts = built.accounts.into_iter().map(|a| AccountMeta {
        pubkey: a.pubkey,
        is_signer: a.is_signer,
        is_writable: a.is_writable,
    }).collect();
    Instruction { program_id: built.program_id, accounts, data: built.data }
}

/// `solana_system_interface::instruction::create_account` builds the
/// instruction that creates an account. It names two accounts, the payer
/// and the new account; both sign and both are written to.
#[verifier::external_body]
pub(crate) fn system_create_account(
    payer: &Pubkey,
    new_account: &Pubkey,
    lamports: u64,
    space: u64,
    owner: &Pubkey,
) -> (instruction: Instruction)
    ensures
        instruction.accounts@.len() == 2,
        instruction.accounts@[0] == (AccountMeta {
            pubkey: *payer,
            is_signer: true,
            is_writable: true,
        }),
        instruction.accounts@[1] == (AccountMeta {
            pubkey: *new_account,
            is_signer: true,
            is_writable: true,
        }),
{
    let built = create_account(payer, new_account, lamports, space, owner);
    let accounts = built.accounts.into_iter().map(|a| AccountMeta {
        pubkey: a.pubkey,
        is_signer: a.is_signer,
        is_writable: a.is_writable,
    }).collect();
    Instruction { program_id: built.program_id, accounts, data: built.data }
}

/// `Transaction::new_with_payer` without a payer compiles the instructions
/// into a message and wraps it unsigned; `Transaction::try_sign` then sets
/// the block hash and signs the message with every key pair, or reports why
/// it cannot: a key pair that the message does not ask for, or a signature
/// that is still missing. Nothing is claimed of which it is.
///
/// Compiling panics on more than 255 keys of a kind, and signing on a
/// length that cannot be encoded in 16 bits. Both are left out here.
#[verifier::external_body]
pub(crate) fn sign_instructions(
    instructions: &Vec<Instruction>,
    signers: &Vec<&Keypair>,
    blockhash: Blockhash,
) -> (signed: Result<Transaction, SignerError>)
    requires
        fits_a_message(instructions@),
{
    let converted: Vec<SdkInstruction> = instructions.iter().map(|i| SdkInstruction {
        program_id: i.program_id,
        accounts: i.accounts.iter().map(|a| SdkAccountMeta {
            pubkey: a.pubkey,
            is_signer: a.is_signer,
            is_writable: a.is_writable,
        }).collect(),
        data: i.data.clone(),
    }).collect();
    let mut transaction = Transaction::new_with_payer(&converted, None);
    transaction.try_sign(signers, blockhash)?;
    Ok(transaction)
}

/// The text that `SignerError` prints as. Nothing is claimed of the text.
#[verifier::external_body]
pub(crate) fn signer_error_text(error: &SignerError) -> (text: String) {
    error.to_string()
}

} // verus!
