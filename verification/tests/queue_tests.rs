use task_scheduler::{Task, TaskPriority, TaskQueue, TaskStatus};

fn task(payload: &str, priority: TaskPriority) -> Task {
    Task::new(String::from(payload)).with_priority(priority)
}

fn drain(queue: &mut TaskQueue) -> Vec<String> {
    let mut order = Vec::new();
    while let Some(task) = queue.dequeue() {
        assert_eq!(task.status(), TaskStatus::Pending);
        order.push(task.transaction_params().to_string());
    }
    order
}

#[test]
fn new_queue_is_empty() {
    let mut queue = TaskQueue::new();
    assert_eq!(queue.len(), 0);
    assert!(queue.is_empty());
    assert!(queue.dequeue().is_none());
    assert_eq!(queue.len(), 0);
}

#[test]
fn same_priority_is_first_in_first_out() {
    let mut queue = TaskQueue::new();
    for payload in ["a", "b", "c", "d"] {
        assert!(queue.enqueue(task(payload, TaskPriority::Normal)).is_ok());
    }
    assert_eq!(queue.len(), 4);
    assert_eq!(drain(&mut queue), vec!["a", "b", "c", "d"]);
    assert_eq!(queue.len(), 0);
}

#[test]
fn higher_priority_goes_first_whatever_the_arrival() {
    let mut queue = TaskQueue::new();
    assert!(queue.enqueue(task("low", TaskPriority::Low)).is_ok());
    assert!(queue.enqueue(task("normal", TaskPriority::Normal)).is_ok());
    assert!(queue.enqueue(task("high", TaskPriority::High)).is_ok());
    assert!(queue.enqueue(task("critical", TaskPriority::Critical)).is_ok());
    assert_eq!(drain(&mut queue), vec!["critical", "high", "normal", "low"]);
}

#[test]
fn tiers_interleaved_with_dequeues() {
    let mut queue = TaskQueue::new();
    assert!(queue.enqueue(task("n1", TaskPriority::Normal)).is_ok());
    assert!(queue.enqueue(task("l1", TaskPriority::Low)).is_ok());
    assert_eq!(queue.dequeue().unwrap().transaction_params(), "n1");
    assert!(queue.enqueue(task("h1", TaskPriority::High)).is_ok());
    assert!(queue.enqueue(task("l2", TaskPriority::Low)).is_ok());
    assert!(queue.enqueue(task("h2", TaskPriority::High)).is_ok());
    assert_eq!(queue.len(), 4);
    assert_eq!(queue.dequeue().unwrap().transaction_params(), "h1");
    assert!(queue.enqueue(task("c1", TaskPriority::Critical)).is_ok());
    assert_eq!(drain(&mut queue), vec!["c1", "h2", "l1", "l2"]);
}

#[test]
fn bounded_queue_refuses_at_capacity_and_admits_after_dequeue() {
    let mut queue = TaskQueue::bounded(2);
    assert!(queue.enqueue(task("a", TaskPriority::Normal)).is_ok());
    assert!(queue.enqueue(task("b", TaskPriority::Normal)).is_ok());
    let third = task("c", TaskPriority::Critical);
    let error = queue.enqueue(third.clone()).unwrap_err();
    assert_eq!(error.message(), "Queue is bounded and it's full");
    assert_eq!(error.task, third);
    assert_eq!(error.task.transaction_params(), "c");
    assert_eq!(queue.len(), 2);
    assert_eq!(queue.dequeue().unwrap().transaction_params(), "a");
    assert!(queue.enqueue(task("d", TaskPriority::Normal)).is_ok());
    assert_eq!(queue.len(), 2);
    assert_eq!(drain(&mut queue), vec!["b", "d"]);
}

#[test]
fn queue_of_capacity_zero_admits_nothing() {
    let mut queue = TaskQueue::bounded(0);
    assert!(queue.enqueue(task("a", TaskPriority::Critical)).is_err());
    assert_eq!(queue.len(), 0);
    assert!(queue.dequeue().is_none());
}

#[test]
fn unbounded_queue_keeps_admitting() {
    let mut queue = TaskQueue::new();
    for i in 0..200 {
        assert!(queue.enqueue(task(&i.to_string(), TaskPriority::Low)).is_ok());
    }
    assert_eq!(queue.len(), 200);
    let order = drain(&mut queue);
    let expected: Vec<String> = (0..200).map(|i: u32| i.to_string()).collect();
    assert_eq!(order, expected);
}

#[test]
fn clear_discards_everything_and_keeps_the_limit() {
    let mut queue = TaskQueue::bounded(2);
    assert!(queue.enqueue(task("a", TaskPriority::High)).is_ok());
    assert!(queue.enqueue(task("b", TaskPriority::Low)).is_ok());
    queue.clear();
    assert_eq!(queue.len(), 0);
    assert!(queue.is_empty());
    assert!(queue.dequeue().is_none());
    assert!(queue.enqueue(task("c", TaskPriority::Normal)).is_ok());
    assert!(queue.enqueue(task("d", TaskPriority::Normal)).is_ok());
    assert!(queue.enqueue(task("e", TaskPriority::Normal)).is_err());
}
