//! The transaction builder: collects instructions and a recent block hash
//! and has the transaction signed once both are there.

use crate::solana::{
    keypair_pubkey, sign_instructions, signer_error_text, system_create_account,
    system_transfer, Blockhash,
};
use crate::transaction::instruction::{
    keys_fit, keys_fit_a_message, some_accounts_too_many, some_data_too_long, Instruction,
    MAX_ENCODED_LEN,
};
use solana_pubkey::Pubkey;
use solana_sdk::signature::Keypair;
use solana_sdk::signer::SignerError;
use solana_sdk::transaction::Transaction;
use vstd::prelude::*;
use vstd::string::StringExecFns;

verus! {

/// Why a builder in the given state, asked to sign for `signers` key pairs,
/// refuses before any signing is tried; `None` when it does not refuse.
///
/// The signers are looked at first, then the block hash, then the
/// instructions: that there are any, that their lengths can be encoded, and
/// that a message can hold the keys they name.
pub open spec fn refusal(
    instructions: Seq<Instruction>,
    recent_blockhash: Option<Blockhash>,
    signers: nat,
) -> Option<Seq<char>> {
    if signers == 0 {
        Some("No signers provided"@)
    } else {
        unready(instructions, recent_blockhash)
    }
}

/// Why a builder in the given state cannot be built from, whoever signs;
/// `None` when it can.
pub open spec fn unready(
    instructions: Seq<Instruction>,
    recent_blockhash: Option<Blockhash>,
) -> Option<Seq<char>> {
    if recent_blockhash.is_none() {
        Some("Missing recent_blockhash"@)
    } else if instructions.len() == 0 {
        Some("No instructions"@)
    } else if instructions.len() > MAX_ENCODED_LEN {
        Some("Too many instructions"@)
    } else if some_accounts_too_many(instructions) {
        Some("Too many accounts in an instruction"@)
    } else if some_data_too_long(instructions) {
        Some("Instruction data too long"@)
    } else if !keys_fit(instructions) {
        Some("Too many account keys"@)
    } else {
        None
    }
}

/// The message of the error for a transfer that moves nothing.
pub open spec fn zero_amount_message() -> Seq<char> {
    "Transfer amount must be greater than zero"@
}

/// Why a batch of transfers is refused before a builder is asked; `None`
/// when it is not. A batch that is not refused here is built from like any
/// other list of instructions.
pub open spec fn batch_refusal(transfers: Seq<(Pubkey, u64)>) -> Option<Seq<char>> {
    if transfers.len() == 0 {
        Some("No transfers provided"@)
    } else if exists|i: int| 0 <= i < transfers.len() && (#[trigger] transfers[i]).1 == 0 {
        Some(zero_amount_message())
    } else {
        None
    }
}

/// Collects the parts of a transaction.
pub struct TransactionBuilder {
    instructions: Vec<Instruction>,
    recent_blockhash: Option<Blockhash>,
}

impl TransactionBuilder {
    /// The instructions added so far, in order.
    pub closed spec fn instructions(&self) -> Seq<Instruction> {
        self.instructions@
    }

    /// The block hash the transaction will refer to, once set.
    pub closed spec fn recent_blockhash(&self) -> Option<Blockhash> {
        self.recent_blockhash
    }

    /// A builder with no instruction and no block hash.
    pub fn new() -> (builder: TransactionBuilder)
        ensures
            builder.instructions() == Seq::<Instruction>::empty(),
            builder.recent_blockhash().is_none(),
    {
        TransactionBuilder { instructions: Vec::new(), recent_blockhash: None }
    }

    /// Adds an instruction behind the ones already there.
    pub fn add_instruction(&mut self, instruction: Instruction) -> (builder: &mut Self)
        ensures
            builder.instructions() == old(self).instructions().push(instruction),
            builder.recent_blockhash() == old(self).recent_blockhash(),
            *final(self) == *final(builder),
    {
        self.instructions.push(instruction);
        self
    }

    /// Sets the block hash, replacing an earlier one.
    pub fn set_recent_blockhash(&mut self, blockhash: Blockhash) -> (builder: &mut Self)
        ensures
            builder.instructions() == old(self).instructions(),
            builder.recent_blockhash() == Some(blockhash),
            *final(self) == *final(builder),
    {
        self.recent_blockhash = Some(blockhash);
        self
    }

    /// The number of instructions added so far.
    pub fn instruction_count(&self) -> (count: usize)
        ensures
            count == self.instructions().len(),
    {
        self.instructions.len()
    }

    /// Forgets the instructions and the block hash.
    pub fn clear(&mut self)
        ensures
            final(self).instructions() == Seq::<Instruction>::empty(),
            final(self).recent_blockhash().is_none(),
    {
        self.instructions.clear();
        self.recent_blockhash = None;
    }

    /// Checks that the builder holds what a transaction needs: a block
    /// hash, at least one instruction, lengths that can be encoded, and keys
    /// that a message can hold.
    #[verifier::loop_isolation(false)]
    pub fn validate(&self) -> (result: Result<(), String>)
        ensures
            match result {
                Ok(_) => unready(self.instructions(), self.recent_blockhash()).is_none(),
                Err(message) => unready(self.instructions(), self.recent_blockhash()) == Some(
                    message@,
                ),
            },
    {
        if self.recent_blockhash.is_none() {
            return Err(String::from_str("Missing recent_blockhash"));
        }
        if self.instructions.len() == 0 {
            return Err(String::from_str("No instructions"));
        }
        if self.instructions.len() > MAX_ENCODED_LEN {
            return Err(String::from_str("Too many instructions"));
        }
        let mut at: usize = 0;
        while at < self.instructions.len()
            invariant
                at <= self.instructions@.len(),
                forall|i: int|
                    0 <= i < at ==> (#[trigger] self.instructions@[i]).accounts@.len()
                        <= MAX_ENCODED_LEN,
            decreases self.instructions@.len() - at,
        {
            if self.instructions[at].accounts.len() > MAX_ENCODED_LEN {
                assert(some_accounts_too_many(self.instructions@));
                return Err(String::from_str("Too many accounts in an instruction"));
            }
            at += 1;
        }
        let mut at: usize = 0;
        while at < self.instructions.len()
            invariant
                at <= self.instructions@.len(),
                forall|i: int|
                    0 <= i < at ==> (#[trigger] self.instructions@[i]).data@.len()
                        <= MAX_ENCODED_LEN,
            decreases self.instructions@.len() - at,
        {
            if self.instructions[at].data.len() > MAX_ENCODED_LEN {
                assert(some_data_too_long(self.instructions@));
                return Err(String::from_str("Instruction data too long"));
            }
            at += 1;
        }
        if !keys_fit_a_message(&self.instructions) {
            return Err(String::from_str("Too many account keys"));
        }
        Ok(())
    }

    /// What `build` returns once signing has been tried: the transaction if
    /// it was signed, the text of the error if it was not.
    pub fn signing_result(signed: Result<Transaction, SignerError>) -> (result: Result<
        Transaction,
        String,
    >)
        ensures
            match signed {
                Ok(transaction) => result == Ok::<Transaction, String>(transaction),
                Err(_) => result.is_err(),
            },
    {
        match signed {
            Ok(transaction) => Ok(transaction),
            Err(error) => Err(signer_error_text(&error)),
        }
    }

    /// Compiles the instructions into a message and has it signed by the
    /// given key pairs for the builder's block hash.
    ///
    /// Refuses, in this order, without signers, without a block hash,
    /// without instructions, with a length that cannot be encoded, and with
    /// keys that a message cannot hold. Otherwise the outcome is up to the
    /// signing: the key pairs must be the ones whose signatures the
    /// instructions ask for.
    pub fn build(&self, signers: &Vec<&Keypair>) -> (result: Result<Transaction, String>)
        ensures
            match refusal(self.instructions(), self.recent_blockhash(), signers@.len()) {
                Some(message) => result.is_err() && result->Err_0@ == message,
                None => true,
            },
    {
        if signers.len() == 0 {
            return Err(String::from_str("No signers provided"));
        }
        match self.validate() {
            Err(message) => Err(message),
            Ok(_) => match self.recent_blockhash {
                Some(blockhash) => Self::signing_result(
                    sign_instructions(&self.instructions, signers, blockhash),
                ),
                None => Err(String::from_str("Missing recent_blockhash")),
            },
        }
    }

    /// A signed transaction that moves `lamports` from the account of
    /// `from` to the account `to`.
    ///
    /// Refuses an amount of zero. Otherwise the outcome is up to the
    /// signing.
    pub fn transfer(
        from: &Keypair,
        to: &Pubkey,
        lamports: u64,
        recent_blockhash: Blockhash,
    ) -> (result: Result<Transaction, String>)
        ensures
            lamports == 0 ==> result.is_err() && result->Err_0@ == zero_amount_message(),
    {
        if lamports == 0 {
            return Err(String::from_str("Transfer amount must be greater than zero"));
        }
        let mut builder = TransactionBuilder::new();
        let instruction = system_transfer(&keypair_pubkey(from), to, lamports);
        builder.add_instruction(instruction);
        builder.set_recent_blockhash(recent_blockhash);
        let mut signers: Vec<&Keypair> = Vec::new();
        signers.push(from);
        builder.build(&signers)
    }

    /// A signed transaction that creates the account of `new_account` with
    /// the given balance and size, paid for by `payer` and owned by the
    /// program `owner`. The outcome is up to the signing.
    pub fn create_account(
        payer: &Keypair,
        new_account: &Keypair,
        owner: &Pubkey,
        lamports: u64,
        space: u64,
        recent_blockhash: Blockhash,
    ) -> (result: Result<Transaction, String>) {
        let mut builder = TransactionBuilder::new();
        let instruction = system_create_account(
            &keypair_pubkey(payer),
            &keypair_pubkey(new_account),
            lamports,
            space,
            owner,
        );
        builder.add_instruction(instruction);
        builder.set_recent_blockhash(recent_blockhash);
        let mut signers: Vec<&Keypair> = Vec::new();
        signers.push(payer);
        signers.push(new_account);
        builder.build(&signers)
    }

    /// A signed transaction that makes every transfer of the list, in
    /// order, from the account of `from`.
    ///
    /// Refuses an empty list, then a list with an amount of zero in it.
    /// Otherwise the transfers are built from like any other instructions:
    /// the builder may refuse them, and beyond that the outcome is up to the
    /// signing.
    pub fn batch_transfer(
        from: &Keypair,
        transfers: &[(Pubkey, u64)],
        recent_blockhash: Blockhash,
    ) -> (result: Result<Transaction, String>)
        ensures
            match batch_refusal(transfers@) {
                Some(message) => result.is_err() && result->Err_0@ == message,
                None => true,
            },
    {
        if transfers.len() == 0 {
            return Err(String::from_str("No transfers provided"));
        }
        let source = keypair_pubkey(from);
        let mut builder = TransactionBuilder::new();
        let mut at: usize = 0;
        while at < transfers.len()
            invariant
                at <= transfers@.len(),
                builder.instructions().len() == at,
                builder.recent_blockhash().is_none(),
                forall|i: int| 0 <= i < at ==> (#[trigger] transfers@[i]).1 != 0,
            decreases transfers@.len() - at,
        {
            if transfers[at].1 == 0 {
                return Err(String::from_str("Transfer amount must be greater than zero"));
            }
            let instruction = system_transfer(&source, &transfers[at].0, transfers[at].1);
            builder.add_instruction(instruction);
            at += 1;
        }
        builder.set_recent_blockhash(recent_blockhash);
        let mut signers: Vec<&Keypair> = Vec::new();
        signers.push(from);
        builder.build(&signers)
    }
}

} // verus!
