use serde_json::Value;
use solana_sdk::pubkey::Pubkey;
use std::collections::HashSet;
use task_scheduler::transaction::{TransactionParams, TransferParams};
use task_scheduler::{Task, TaskPriority, TaskStatus};

fn key_json(key: &Pubkey) -> Value {
    Value::Array(key.to_bytes().iter().map(|byte| Value::from(*byte)).collect())
}

fn to_json(params: &TransactionParams) -> String {
    let mut fields = serde_json::Map::new();
    match params {
        TransactionParams::Transfer(transfer) => {
            fields.insert("type".to_string(), Value::from("Transfer"));
            fields.insert("from".to_string(), key_json(&transfer.from));
            fields.insert("to".to_string(), key_json(&transfer.to));
            fields.insert("lamports".to_string(), Value::from(transfer.lamports));
        }
        TransactionParams::CreateAccount(create) => {
            fields.insert("type".to_string(), Value::from("CreateAccount"));
            fields.insert("payer".to_string(), key_json(&create.payer));
            fields.insert("new_account".to_string(), key_json(&create.new_account));
            fields.insert("owner".to_string(), key_json(&create.owner));
            fields.insert("lamports".to_string(), Value::from(create.lamports));
            fields.insert("space".to_string(), Value::from(create.space));
        }
        TransactionParams::BatchTransfer(batch) => {
            fields.insert("type".to_string(), Value::from("BatchTransfer"));
            fields.insert("from".to_string(), key_json(&batch.from));
            let transfers = batch
                .transfers
                .iter()
                .map(|(to, lamports)| Value::Array(vec![key_json(to), Value::from(*lamports)]))
                .collect();
            fields.insert("transfers".to_string(), Value::Array(transfers));
        }
    }
    serde_json::to_string(&Value::Object(fields)).unwrap()
}

fn transfer(lamports: u64) -> TransactionParams {
    TransactionParams::Transfer(TransferParams {
        from: Pubkey::new_unique(),
        to: Pubkey::new_unique(),
        lamports,
    })
}

#[test]
fn test_task_creation() {
    let params = transfer(1_000_000);
    let params_json = to_json(&params);
    let task = Task::new(params_json);
    assert!(task == task);
}

#[test]
fn test_task_clone() {
    let params = transfer(1_000_000);
    let params_json = to_json(&params);
    let task = Task::new(params_json);
    let cloned_task = task.clone();
    assert_eq!(task, cloned_task);
    assert_eq!(task.id(), cloned_task.id());
    assert_eq!(task.transaction_params(), cloned_task.transaction_params());
    assert_eq!(task.status(), cloned_task.status());
    assert_eq!(task.retry_count(), cloned_task.retry_count());
    assert_eq!(task.max_retries(), cloned_task.max_retries());
    assert_eq!(task.priority(), cloned_task.priority());
    assert_eq!(task.last_attempt(), cloned_task.last_attempt());
    assert_eq!(task.created_at(), cloned_task.created_at());
}

#[test]
fn test_task_equality() {
    let params1 = transfer(1_000_000);
    let params2 = transfer(2_000_000);
    let task1 = Task::new(to_json(&params1));
    let task2 = Task::new(to_json(&params2));
    assert_ne!(task1, task2, "Different tasks should have different IDs");
}

#[test]
fn test_task_debug_format() {
    let params = transfer(1_000_000);
    let task = Task::new(to_json(&params));
    let debug_str = format!("{:?}", task);
    assert!(debug_str.as_str().contains("Task"));
}

#[test]
fn test_multiple_tasks_uniqueness() {
    let tasks: Vec<Task> = (0..5)
        .map(|_| {
            let params = transfer(1_000_000);
            Task::new(to_json(&params))
        })
        .collect();

    for i in 0..tasks.len() {
        for j in (i + 1)..tasks.len() {
            assert_ne!(tasks[i], tasks[j], "Each task should be unique");
        }
    }

    let task_set: HashSet<_> = tasks.into_iter().collect();
    assert_eq!(task_set.len(), 5);
}

#[test]
fn test_task_in_collections() {
    let params1 = transfer(1_000_000);
    let params2 = transfer(2_000_000);
    let task1 = Task::new(to_json(&params1));
    let task2 = Task::new(to_json(&params2));

    let mut tasks = HashSet::new();
    tasks.insert(task1.clone());
    tasks.insert(task2.clone());

    assert!(tasks.contains(&task1));
    assert!(tasks.contains(&task2));
}

#[test]
fn new_task_is_fresh() {
    let payload = to_json(&transfer(42));
    let task = Task::new(payload.clone());
    assert_eq!(task.transaction_params(), payload);
    assert_eq!(task.status(), TaskStatus::Pending);
    assert_eq!(task.priority(), TaskPriority::Normal);
    assert_eq!(task.retry_count(), 0);
    assert_eq!(task.max_retries(), 3);
    assert_eq!(task.last_attempt(), None);
    assert!(task.created_at() > 0);
}

#[test]
fn task_id_is_a_hyphenated_uuid() {
    let task = Task::new(String::from("{}"));
    let id: Vec<char> = task.id().chars().collect();
    assert_eq!(id.len(), 36);
    for (at, c) in id.iter().enumerate() {
        if at == 8 || at == 13 || at == 18 || at == 23 {
            assert_eq!(*c, '-');
        } else {
            assert!(c.is_ascii_hexdigit() && !c.is_ascii_uppercase());
        }
    }
    assert_eq!(id[14], '4');
}

#[test]
fn builders_change_one_field_only() {
    let task = Task::new(String::from("payload"));
    let id = task.id().to_string();
    let created_at = task.created_at();
    let task = task.with_priority(TaskPriority::Critical).with_max_retries(7);
    assert_eq!(task.id(), id);
    assert_eq!(task.transaction_params(), "payload");
    assert_eq!(task.priority(), TaskPriority::Critical);
    assert_eq!(task.max_retries(), 7);
    assert_eq!(task.retry_count(), 0);
    assert_eq!(task.status(), TaskStatus::Pending);
    assert_eq!(task.last_attempt(), None);
    assert_eq!(task.created_at(), created_at);
}

#[test]
fn clone_keeps_every_field() {
    let task = Task::new(String::from("payload"))
        .with_priority(TaskPriority::Low)
        .with_max_retries(1);
    let copy = task.clone();
    assert_eq!(copy.id(), task.id());
    assert_eq!(copy.transaction_params(), task.transaction_params());
    assert_eq!(copy.status(), task.status());
    assert_eq!(copy.priority(), task.priority());
    assert_eq!(copy.retry_count(), task.retry_count());
    assert_eq!(copy.max_retries(), task.max_retries());
    assert_eq!(copy.last_attempt(), task.last_attempt());
    assert_eq!(copy.created_at(), task.created_at());
}

#[test]
fn equality_looks_at_the_identifier_only() {
    let task = Task::new(String::from("payload"));
    let changed = task.clone().with_priority(TaskPriority::High).with_max_retries(9);
    assert_eq!(task, changed);
    let other = Task::new(String::from("payload"));
    assert_ne!(task, other);
}

#[test]
fn priority_levels_follow_the_total_order() {
    assert_eq!(TaskPriority::Low.level(), 0);
    assert_eq!(TaskPriority::Normal.level(), 1);
    assert_eq!(TaskPriority::High.level(), 2);
    assert_eq!(TaskPriority::Critical.level(), 3);
}

#[test]
fn task_from_parts_checks_the_retry_limit() {
    let task = Task::from_parts(
        String::from("id-1"),
        String::from("payload"),
        TaskStatus::InProgress,
        2,
        2,
        TaskPriority::High,
        Some(17),
        11,
    )
    .unwrap();
    assert_eq!(task.id(), "id-1");
    assert_eq!(task.transaction_params(), "payload");
    assert_eq!(task.status(), TaskStatus::InProgress);
    assert_eq!(task.retry_count(), 2);
    assert_eq!(task.max_retries(), 2);
    assert_eq!(task.priority(), TaskPriority::High);
    assert_eq!(task.last_attempt(), Some(17));
    assert_eq!(task.created_at(), 11);
    assert!(Task::from_parts(
        String::from("id-2"),
        String::from("payload"),
        TaskStatus::Pending,
        3,
        2,
        TaskPriority::Low,
        None,
        0,
    )
    .is_none());
}

#[test]
fn priorities_are_totally_ordered() {
    assert!(TaskPriority::Critical > TaskPriority::High);
    assert!(TaskPriority::High > TaskPriority::Normal);
    assert!(TaskPriority::Normal > TaskPriority::Low);
}

#[test]
fn params_clone_is_equal() {
    let params = TransactionParams::CreateAccount(task_scheduler::transaction::CreateAccountParams {
        payer: Pubkey::new_unique(),
        new_account: Pubkey::new_unique(),
        owner: Pubkey::new_unique(),
        lamports: 1_000_000,
        space: 1024,
    });
    assert_eq!(params.clone(), params);
    let batch = TransactionParams::BatchTransfer(task_scheduler::transaction::BatchTransferParams {
        from: Pubkey::new_unique(),
        transfers: vec![(Pubkey::new_unique(), 100_000), (Pubkey::new_unique(), 200_000)],
    });
    assert_eq!(batch.clone(), batch);
    assert_ne!(batch, params);
    assert!(to_json(&batch).contains("BatchTransfer"));
    assert!(to_json(&params).contains("CreateAccount"));
}

#[test]
fn fresh_task_takes_identifier_and_time_as_given() {
    let task = Task::fresh(String::from("id-7"), String::from("payload"), 1_700_000_000_123);
    assert_eq!(task.id(), "id-7");
    assert_eq!(task.transaction_params(), "payload");
    assert_eq!(task.status(), TaskStatus::Pending);
    assert_eq!(task.retry_count(), 0);
    assert_eq!(task.max_retries(), 3);
    assert_eq!(task.priority(), TaskPriority::Normal);
    assert_eq!(task.last_attempt(), None);
    assert_eq!(task.created_at(), 1_700_000_000_123);
}

#[test]
fn new_task_is_stamped_with_the_clock() {
    let before = task_scheduler::clock::unix_millis();
    let first = Task::new(String::from("a"));
    let second = Task::new(String::from("b"));
    let after = task_scheduler::clock::unix_millis();
    assert!(before <= first.created_at());
    assert!(first.created_at() <= second.created_at());
    assert!(second.created_at() <= after);
}
