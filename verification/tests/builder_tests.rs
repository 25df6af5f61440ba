use task_scheduler::solana::Blockhash;
use solana_sdk::pubkey::Pubkey;
use solana_sdk::signature::{Keypair, Signer};
use solana_system_interface::instruction;
use task_scheduler::transaction::{AccountMeta, Instruction, TransactionBuilder};

fn held(built: solana_sdk::instruction::Instruction) -> Instruction {
    Instruction {
        program_id: built.program_id,
        accounts: built
            .accounts
            .into_iter()
            .map(|account| AccountMeta {
                pubkey: account.pubkey,
                is_signer: account.is_signer,
                is_writable: account.is_writable,
            })
            .collect(),
        data: built.data,
    }
}

#[test]
fn test_create_transaction_builder() {
    let builder = TransactionBuilder::new();
    assert_eq!(builder.instruction_count(), 0);
}

#[test]
fn test_add_instruction() {
    let mut builder = TransactionBuilder::new();
    let from = Keypair::new();
    let to = Keypair::new();

    let instruction = instruction::transfer(&from.pubkey(), &to.pubkey(), 1000000);

    builder.add_instruction(held(instruction));
    assert_eq!(builder.instruction_count(), 1);
}

#[test]
fn test_add_multiple_instructions() {
    let mut builder = TransactionBuilder::new();
    let from = Keypair::new();
    let to1 = Keypair::new();
    let to2 = Keypair::new();

    let instruction1 = instruction::transfer(&from.pubkey(), &to1.pubkey(), 1000000);
    let instruction2 = instruction::transfer(&from.pubkey(), &to2.pubkey(), 2000000);

    builder.add_instruction(held(instruction1)).add_instruction(held(instruction2));
    assert_eq!(builder.instruction_count(), 2);
}

#[test]
fn test_simple_transfer_transaction() {
    let from = Keypair::new();
    let to = Keypair::new();
    let recent_blockhash = Blockhash::default();

    let result = TransactionBuilder::transfer(&from, &to.pubkey(), 1000000, recent_blockhash);
    assert!(result.is_ok());

    let transaction = result.unwrap();
    assert_eq!(transaction.message.instructions.len(), 1);
}

#[test]
fn test_transfer_with_zero_lamports_fails() {
    let from = Keypair::new();
    let to = Keypair::new();
    let recent_blockhash = Blockhash::default();

    let result = TransactionBuilder::transfer(&from, &to.pubkey(), 0, recent_blockhash);
    assert!(result.is_err());
}

#[test]
fn test_create_account_transaction() {
    let payer = Keypair::new();
    let new_account = Keypair::new();
    let owner = Pubkey::new_unique();
    let recent_blockhash = Blockhash::default();

    let result = TransactionBuilder::create_account(
        &payer,
        &new_account,
        &owner,
        1000000,
        1024,
        recent_blockhash,
    );
    assert!(result.is_ok());

    let transaction = result.unwrap();
    assert!(transaction.message.instructions.len() > 0);
}

#[test]
fn test_batch_transfer() {
    let from = Keypair::new();
    let to1 = Pubkey::new_unique();
    let to2 = Pubkey::new_unique();
    let to3 = Pubkey::new_unique();
    let recent_blockhash = Blockhash::default();

    let transfers = vec![(to1, 1000000), (to2, 2000000), (to3, 3000000)];

    let result = TransactionBuilder::batch_transfer(&from, &transfers, recent_blockhash);
    assert!(result.is_ok());

    let transaction = result.unwrap();
    assert_eq!(transaction.message.instructions.len(), 3);
}

#[test]
fn test_batch_transfer_empty_list_fails() {
    let from = Keypair::new();
    let recent_blockhash = Blockhash::default();
    let transfers = vec![];

    let result = TransactionBuilder::batch_transfer(&from, &transfers, recent_blockhash);
    assert!(result.is_err());
}

#[test]
fn test_build_without_recent_blockhash_fails() {
    let mut builder = TransactionBuilder::new();
    let instruction =
        instruction::transfer(&Keypair::new().pubkey(), &Keypair::new().pubkey(), 1000000);

    builder.add_instruction(held(instruction));

    let from = Keypair::new();
    let signers = vec![&from];
    let result = builder.build(&signers);
    assert!(result.is_err());
}

#[test]
fn test_build_without_instructions_fails() {
    let mut builder = TransactionBuilder::new();
    builder.set_recent_blockhash(Blockhash::default());

    let from = Keypair::new();
    let signers = vec![&from];
    let result = builder.build(&signers);
    assert!(result.is_err());
}

#[test]
fn test_validate_transaction() {
    let mut builder = TransactionBuilder::new();
    let from = Keypair::new();
    let to = Keypair::new();

    let instruction = instruction::transfer(&from.pubkey(), &to.pubkey(), 1000000);
    builder.add_instruction(held(instruction)).set_recent_blockhash(Blockhash::default());

    let result = builder.validate();
    assert!(result.is_ok());
}

#[test]
fn test_clear_builder() {
    let mut builder = TransactionBuilder::new();
    let instruction =
        instruction::transfer(&Keypair::new().pubkey(), &Keypair::new().pubkey(), 1000000);

    builder.add_instruction(held(instruction));
    assert_eq!(builder.instruction_count(), 1);

    builder.clear();
    assert_eq!(builder.instruction_count(), 0);
}

#[test]
fn build_refuses_in_order_signers_blockhash_instructions() {
    let from = Keypair::new();
    let to = Pubkey::new_unique();
    let no_signers: Vec<&Keypair> = Vec::new();
    let signers = vec![&from];

    let mut builder = TransactionBuilder::new();
    assert_eq!(builder.build(&no_signers).unwrap_err(), "No signers provided");
    assert_eq!(builder.build(&signers).unwrap_err(), "Missing recent_blockhash");
    assert_eq!(builder.validate().unwrap_err(), "Missing recent_blockhash");

    builder.set_recent_blockhash(Blockhash::default());
    assert_eq!(builder.build(&no_signers).unwrap_err(), "No signers provided");
    assert_eq!(builder.build(&signers).unwrap_err(), "No instructions");
    assert_eq!(builder.validate().unwrap_err(), "No instructions");

    builder.add_instruction(held(instruction::transfer(&from.pubkey(), &to, 5)));
    assert_eq!(builder.build(&no_signers).unwrap_err(), "No signers provided");
    assert!(builder.validate().is_ok());
    assert!(builder.build(&signers).is_ok());

    builder.clear();
    assert_eq!(builder.build(&signers).unwrap_err(), "Missing recent_blockhash");
}

#[test]
fn build_signs_what_the_sdk_would_sign() {
    let from = Keypair::new();
    let to = Pubkey::new_unique();
    let blockhash = solana_sdk::hash::hash(b"recent");
    let built = instruction::transfer(&from.pubkey(), &to, 7);

    let mut builder = TransactionBuilder::new();
    builder.add_instruction(held(built.clone())).set_recent_blockhash(blockhash);
    let transaction = builder.build(&vec![&from]).unwrap();

    let expected = solana_sdk::transaction::Transaction::new(
        &[&from],
        solana_sdk::message::Message::new(&[built], None),
        blockhash,
    );
    assert_eq!(transaction, expected);
    assert!(transaction.is_signed());
    assert_eq!(transaction.message.recent_blockhash, blockhash);
    assert!(transaction.verify().is_ok());
}

#[test]
fn build_reports_a_signer_the_message_does_not_ask_for() {
    let from = Keypair::new();
    let stranger = Keypair::new();
    let to = Pubkey::new_unique();
    let mut builder = TransactionBuilder::new();
    builder
        .add_instruction(held(instruction::transfer(&from.pubkey(), &to, 7)))
        .set_recent_blockhash(Blockhash::default());
    assert_eq!(builder.build(&vec![&stranger]).unwrap_err(), "keypair-pubkey mismatch");
    assert!(builder.build(&vec![&from]).is_ok());
}

fn sdk(instruction: &Instruction) -> solana_sdk::instruction::Instruction {
    solana_sdk::instruction::Instruction {
        program_id: instruction.program_id,
        accounts: instruction
            .accounts
            .iter()
            .map(|account| solana_sdk::instruction::AccountMeta {
                pubkey: account.pubkey,
                is_signer: account.is_signer,
                is_writable: account.is_writable,
            })
            .collect(),
        data: instruction.data.clone(),
    }
}

fn account(pubkey: Pubkey, is_signer: bool, is_writable: bool) -> AccountMeta {
    AccountMeta { pubkey, is_signer, is_writable }
}

fn ready_with(instructions: Vec<Instruction>) -> TransactionBuilder {
    let mut builder = TransactionBuilder::new();
    builder.set_recent_blockhash(Blockhash::default());
    for instruction in instructions {
        builder.add_instruction(instruction);
    }
    builder
}

#[test]
fn build_counts_each_key_once() {
    let from = Keypair::new();
    let mut builder = TransactionBuilder::new();
    builder.set_recent_blockhash(Blockhash::default());
    let mut built = Vec::new();
    for _ in 0..86 {
        let to = Pubkey::new_unique();
        built.push(instruction::transfer(&from.pubkey(), &to, 1));
    }
    for _ in 0..300 {
        built.push(instruction::transfer(&from.pubkey(), &from.pubkey(), 1));
    }
    for instruction in &built {
        builder.add_instruction(held(instruction.clone()));
    }
    assert!(builder.validate().is_ok());
    let transaction = builder.build(&vec![&from]).unwrap();
    let expected = solana_sdk::transaction::Transaction::new(
        &[&from],
        solana_sdk::message::Message::new(&built, None),
        Blockhash::default(),
    );
    assert_eq!(transaction, expected);
    assert_eq!(transaction.message.instructions.len(), 386);
    assert_eq!(transaction.message.account_keys.len(), 88);
}

#[test]
fn build_holds_as_many_keys_as_a_message_can_refer_to() {
    let program = Pubkey::new_unique();
    let mut accounts: Vec<AccountMeta> =
        (0..254).map(|_| account(Pubkey::new_unique(), false, false)).collect();
    accounts.push(account(Pubkey::new_unique(), false, true));
    let most = Instruction { program_id: program, accounts: accounts.clone(), data: vec![] };
    let builder = ready_with(vec![most.clone()]);
    assert!(builder.validate().is_ok());
    let message = solana_sdk::message::Message::new(&[sdk(&most)], None);
    assert_eq!(message.account_keys.len(), 256);

    accounts.push(account(Pubkey::new_unique(), false, true));
    let one_more = Instruction { program_id: program, accounts, data: vec![] };
    let builder = ready_with(vec![most, one_more]);
    assert_eq!(builder.validate().unwrap_err(), "Too many account keys");
    let from = Keypair::new();
    assert_eq!(builder.build(&vec![&from]).unwrap_err(), "Too many account keys");
}

#[test]
fn build_refuses_more_keys_of_a_kind_than_the_header_counts() {
    let program = Pubkey::new_unique();
    let read_only: Vec<AccountMeta> =
        (0..255).map(|_| account(Pubkey::new_unique(), false, false)).collect();
    let only_read = Instruction { program_id: program, accounts: read_only, data: vec![] };
    assert_eq!(ready_with(vec![only_read]).validate().unwrap_err(), "Too many account keys");

    let mut signing: Vec<AccountMeta> =
        (0..255).map(|_| account(Pubkey::new_unique(), true, false)).collect();
    let signed = Instruction { program_id: program, accounts: signing.clone(), data: vec![] };
    assert!(ready_with(vec![signed.clone()]).validate().is_ok());
    let message = solana_sdk::message::Message::new(&[sdk(&signed)], None);
    assert_eq!(message.header.num_required_signatures, 255);
    assert_eq!(message.account_keys.len(), 256);

    signing.push(account(program, true, false));
    let all_sign = Instruction { program_id: program, accounts: signing, data: vec![] };
    assert_eq!(ready_with(vec![all_sign]).validate().unwrap_err(), "Too many account keys");
}

#[test]
fn build_merges_what_the_uses_of_a_key_ask_for() {
    let program = Pubkey::new_unique();
    let shared: Vec<Pubkey> = (0..255).map(|_| Pubkey::new_unique()).collect();
    let read: Vec<AccountMeta> = shared.iter().map(|key| account(*key, false, false)).collect();
    let written: Vec<AccountMeta> = shared.iter().map(|key| account(*key, false, true)).collect();
    let reads = Instruction { program_id: program, accounts: read, data: vec![] };
    let writes = Instruction { program_id: program, accounts: written, data: vec![] };
    assert_eq!(
        ready_with(vec![reads.clone()]).validate().unwrap_err(),
        "Too many account keys"
    );
    assert!(ready_with(vec![reads.clone(), writes.clone()]).validate().is_ok());
    let message = solana_sdk::message::Message::new(&[sdk(&reads), sdk(&writes)], None);
    assert_eq!(message.header.num_readonly_unsigned_accounts, 1);
    assert_eq!(message.account_keys.len(), 256);
}

#[test]
fn build_refuses_lengths_that_cannot_be_encoded() {
    let from = Keypair::new();
    let signer = account(from.pubkey(), true, true);
    let program = Pubkey::new_unique();

    let longest =
        Instruction { program_id: program, accounts: vec![signer.clone()], data: vec![7; 65535] };
    let builder = ready_with(vec![longest.clone()]);
    assert!(builder.validate().is_ok());
    let transaction = builder.build(&vec![&from]).unwrap();
    assert_eq!(transaction.message.instructions[0].data.len(), 65535);
    assert!(transaction.is_signed());

    let too_long =
        Instruction { program_id: program, accounts: vec![signer.clone()], data: vec![7; 65536] };
    let builder = ready_with(vec![longest.clone(), too_long.clone()]);
    assert_eq!(builder.validate().unwrap_err(), "Instruction data too long");
    assert_eq!(builder.build(&vec![&from]).unwrap_err(), "Instruction data too long");

    let crowded =
        Instruction { program_id: program, accounts: vec![signer.clone(); 65536], data: vec![] };
    let builder = ready_with(vec![longest, crowded.clone()]);
    assert_eq!(builder.validate().unwrap_err(), "Too many accounts in an instruction");
    let builder = ready_with(vec![too_long, crowded]);
    assert_eq!(builder.build(&vec![&from]).unwrap_err(), "Too many accounts in an instruction");

    let full =
        Instruction { program_id: program, accounts: vec![signer.clone(); 65535], data: vec![] };
    let builder = ready_with(vec![full]);
    assert!(builder.build(&vec![&from]).is_ok());

    let small = Instruction { program_id: program, accounts: vec![signer], data: vec![] };
    let builder = ready_with(vec![small.clone(); 65535]);
    assert!(builder.validate().is_ok());
    let builder = ready_with(vec![small; 65536]);
    assert_eq!(builder.validate().unwrap_err(), "Too many instructions");
    assert_eq!(builder.build(&vec![&from]).unwrap_err(), "Too many instructions");
}

#[test]
fn transfer_names_source_and_destination() {
    let from = Keypair::new();
    let to = Pubkey::new_unique();
    let transaction =
        TransactionBuilder::transfer(&from, &to, 1_000_000, Blockhash::default()).unwrap();
    let expected = instruction::transfer(&from.pubkey(), &to, 1_000_000);
    assert_eq!(
        transaction.message,
        solana_sdk::message::Message::new(&[expected], None)
    );
    assert_eq!(transaction.message.header.num_required_signatures, 1);
    assert_eq!(transaction.message.account_keys[0], from.pubkey());
    assert_eq!(transaction.message.account_keys[1], to);
    assert!(transaction.is_signed());
    assert_eq!(
        TransactionBuilder::transfer(&from, &to, 0, Blockhash::default()).unwrap_err(),
        "Transfer amount must be greater than zero"
    );
}

#[test]
fn create_account_is_signed_by_payer_and_new_account() {
    let payer = Keypair::new();
    let new_account = Keypair::new();
    let owner = Pubkey::new_unique();
    let transaction = TransactionBuilder::create_account(
        &payer,
        &new_account,
        &owner,
        1_000_000,
        1024,
        Blockhash::default(),
    )
    .unwrap();
    let expected = instruction::create_account(
        &payer.pubkey(),
        &new_account.pubkey(),
        1_000_000,
        1024,
        &owner,
    );
    assert_eq!(
        transaction.message,
        solana_sdk::message::Message::new(&[expected], None)
    );
    assert_eq!(transaction.message.header.num_required_signatures, 2);
    assert!(transaction.is_signed());
}

#[test]
fn batch_transfer_refuses_empty_lists_and_zero_amounts() {
    let from = Keypair::new();
    let to = Pubkey::new_unique();
    let empty: Vec<(Pubkey, u64)> = Vec::new();
    assert_eq!(
        TransactionBuilder::batch_transfer(&from, &empty, Blockhash::default()).unwrap_err(),
        "No transfers provided"
    );
    assert_eq!(
        TransactionBuilder::batch_transfer(&from, &[(to, 1), (to, 0)], Blockhash::default())
            .unwrap_err(),
        "Transfer amount must be greater than zero"
    );
}

#[test]
fn batch_transfer_holds_what_a_message_holds() {
    let from = Keypair::new();
    let most: Vec<(Pubkey, u64)> = (0..254).map(|_| (Pubkey::new_unique(), 1)).collect();
    let transaction =
        TransactionBuilder::batch_transfer(&from, &most, Blockhash::default()).unwrap();
    assert_eq!(transaction.message.instructions.len(), 254);
    assert_eq!(transaction.message.account_keys.len(), 256);

    let mut repeated = most.clone();
    repeated.extend(most.iter().cloned());
    let transaction =
        TransactionBuilder::batch_transfer(&from, &repeated, Blockhash::default()).unwrap();
    assert_eq!(transaction.message.instructions.len(), 508);

    let mut long = most;
    long.push((Pubkey::new_unique(), 1));
    assert_eq!(
        TransactionBuilder::batch_transfer(&from, &long, Blockhash::default()).unwrap_err(),
        "Too many account keys"
    );
}

#[test]
fn batch_transfer_makes_the_transfers_in_order() {
    let from = Keypair::new();
    let first = Pubkey::new_unique();
    let second = Pubkey::new_unique();
    let transaction = TransactionBuilder::batch_transfer(
        &from,
        &[(first, 10), (second, 20)],
        Blockhash::default(),
    )
    .unwrap();
    let expected = solana_sdk::message::Message::new(
        &[
            instruction::transfer(&from.pubkey(), &first, 10),
            instruction::transfer(&from.pubkey(), &second, 20),
        ],
        None,
    );
    assert_eq!(transaction.message, expected);
    assert!(transaction.is_signed());
}

#[test]
fn build_refuses_many_keys_without_counting_them_all() {
    let program = Pubkey::new_unique();
    let accounts: Vec<AccountMeta> =
        (0..60_000).map(|_| account(Pubkey::new_unique(), false, true)).collect();
    let wide = Instruction { program_id: program, accounts, data: vec![] };
    let builder = ready_with(vec![wide.clone(), wide]);
    assert_eq!(builder.validate().unwrap_err(), "Too many account keys");
}
