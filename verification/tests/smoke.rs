use task_scheduler::TaskScheduler;

#[test]
fn first_test() {
    assert_eq!(2 + 2, 4);
    assert!(TaskScheduler::new().is_empty());
}
