//! Behaviour of the task system: admission, FIFO dispatch under the
//! concurrency cap, cancellation, shutdown, and the record lifecycle.

use m2k_core::CancelKind;
use m2k_core::QueueConfig;
use m2k_core::QueueError;
use m2k_core::StoreError;
use m2k_core::SubmitError;
use m2k_core::TaskStatus;
use m2k_core::TaskSystem;
use m2k_core::init_tasks_table;

fn system(max_concurrent: usize, max_queue_size: usize) -> TaskSystem {
    TaskSystem::new(QueueConfig { max_concurrent, max_queue_size })
}

fn submit(sys: &mut TaskSystem, prompt: &str, now: u64) -> String {
    sys.submit_task(prompt.to_string(), None, None, None, now).expect("submit should succeed")
}

#[test]
fn submit_succeeds_below_limit_and_fails_at_limit() {
    let mut sys = system(1, 2);
    let _a = submit(&mut sys, "a", 1);
    let _b = submit(&mut sys, "b", 2);
    let full = sys.submit_task("c".to_string(), None, None, None, 3);
    assert!(matches!(full, Err(SubmitError::QueueFull)));
    // One dispatch vacates a pending slot; submission succeeds again.
    let entry = sys.dispatch_next().expect("a slot and a pending task exist");
    assert_eq!(entry.request.prompt, "a");
    let again = sys.submit_task("c".to_string(), None, None, None, 4);
    assert!(again.is_ok());
}

#[test]
fn submitted_task_is_immediately_retrievable_as_queued() {
    let mut sys = system(2, 10);
    let id = submit(&mut sys, "work", 7);
    assert_eq!(id.len(), 36);
    let task = sys.get_task(&id).expect("the record must exist");
    assert_eq!(task.id, id);
    assert_eq!(task.prompt, "work");
    assert_eq!(task.status, TaskStatus::Queued);
    assert_eq!(task.created_at, 7);
    assert!(task.completed_at.is_none());
    assert!(task.result.is_none());
    assert!(task.error.is_none());
    assert_eq!(task.priority, 5);
}

#[test]
fn fifo_dispatch_under_concurrency_cap() {
    let mut sys = system(2, 10);
    let a = submit(&mut sys, "a", 1);
    let b = submit(&mut sys, "b", 2);
    let c = submit(&mut sys, "c", 3);
    let _d = submit(&mut sys, "d", 4);

    // A and B start immediately.
    let first = sys.dispatch_next().expect("first slot");
    assert_eq!(first.task_id, a);
    let second = sys.dispatch_next().expect("second slot");
    assert_eq!(second.task_id, b);
    assert_eq!(sys.get_task(&a).unwrap().status, TaskStatus::Running);
    assert_eq!(sys.get_task(&b).unwrap().status, TaskStatus::Running);

    // C starts only after A or B finishes.
    assert!(sys.dispatch_next().is_none());
    assert!(sys.complete_task(&a, TaskStatus::Completed, Some("out".to_string()), None, 9));
    let third = sys.dispatch_next().expect("freed slot");
    assert_eq!(third.task_id, c);

    let stats = sys.get_stats();
    assert_eq!(stats.pending_count, 1);
    assert_eq!(stats.active_count, 2);
    assert_eq!(stats.available_slots, 0);
    assert_eq!(stats.max_concurrent, 2);
}

#[test]
fn active_count_never_exceeds_max_concurrent() {
    let mut sys = system(2, 100);
    let mut ids = Vec::new();
    for i in 0..10 {
        ids.push(submit(&mut sys, &format!("task {}", i), i));
    }
    let mut running: Vec<String> = Vec::new();
    let mut finished = 0u64;
    // Interleave dispatching and completing; the cap must hold at every
    // observed instant.
    while finished < 10 {
        while let Some(entry) = sys.dispatch_next() {
            running.push(entry.task_id);
            assert!(sys.get_stats().active_count <= 2);
        }
        let stats = sys.get_stats();
        assert!(stats.active_count <= stats.max_concurrent);
        let id = running.remove(0);
        assert!(sys.complete_task(&id, TaskStatus::Completed, None, None, 50 + finished));
        finished += 1;
        assert!(sys.get_stats().active_count <= 2);
    }
}

#[test]
fn completion_stamps_terminal_statuses_exactly() {
    let mut sys = system(1, 10);
    let a = submit(&mut sys, "a", 1);
    assert!(sys.get_task(&a).unwrap().completed_at.is_none());
    sys.dispatch_next().expect("dispatch a");
    assert!(sys.get_task(&a).unwrap().completed_at.is_none());
    assert!(sys.complete_task(&a, TaskStatus::Completed, Some("done".to_string()), None, 42));
    let task = sys.get_task(&a).unwrap();
    assert_eq!(task.status, TaskStatus::Completed);
    assert_eq!(task.completed_at, Some(42));
    assert_eq!(task.result.as_deref(), Some("done"));
}

#[test]
fn cancelling_pending_task_keeps_it_out_of_dispatch() {
    let mut sys = system(1, 10);
    let a = submit(&mut sys, "a", 1);
    let b = submit(&mut sys, "b", 2);
    let kind = sys.cancel_task(&a, 5).expect("a is pending");
    assert_eq!(kind, CancelKind::Pending);
    let record = sys.get_task(&a).unwrap();
    assert_eq!(record.status, TaskStatus::Failed);
    assert_eq!(record.error.as_deref(), Some("Task cancelled by user"));
    assert_eq!(record.completed_at, Some(5));
    // The cancelled task never transitions to Running: dispatch yields B.
    let entry = sys.dispatch_next().expect("b is pending");
    assert_eq!(entry.task_id, b);
    assert!(sys.dispatch_next().is_none());
    assert_eq!(sys.get_task(&a).unwrap().status, TaskStatus::Failed);
}

#[test]
fn cancelling_active_task_releases_its_permit() {
    let mut sys = system(2, 10);
    let a = submit(&mut sys, "a", 1);
    let b = submit(&mut sys, "b", 2);
    sys.dispatch_next().expect("dispatch a");
    sys.dispatch_next().expect("dispatch b");
    assert_eq!(sys.get_stats().available_slots, 0);

    let kind = sys.cancel_task(&a, 9).expect("a is active");
    assert_eq!(kind, CancelKind::Active);
    assert_eq!(sys.get_task(&a).unwrap().status, TaskStatus::Failed);
    assert_eq!(sys.get_stats().available_slots, 1);

    // Submitting max_concurrent new tasks lets all of them reach Running
    // once the other slot frees too.
    let c = submit(&mut sys, "c", 10);
    let d = submit(&mut sys, "d", 11);
    let entry = sys.dispatch_next().expect("freed permit dispatches c");
    assert_eq!(entry.task_id, c);
    assert!(sys.complete_task(&b, TaskStatus::Completed, None, None, 12));
    let entry = sys.dispatch_next().expect("freed permit dispatches d");
    assert_eq!(entry.task_id, d);
    assert_eq!(sys.get_task(&c).unwrap().status, TaskStatus::Running);
    assert_eq!(sys.get_task(&d).unwrap().status, TaskStatus::Running);
}

#[test]
fn cancelling_unknown_or_terminal_task_is_not_found() {
    let mut sys = system(1, 10);
    assert_eq!(sys.cancel_task("nobody", 1), Err(QueueError::NotFound));
    let a = submit(&mut sys, "a", 1);
    sys.dispatch_next().expect("dispatch a");
    assert!(sys.complete_task(&a, TaskStatus::Completed, None, None, 2));
    // Already terminal: not found for cancellation purposes.
    assert_eq!(sys.cancel_task(&a, 3), Err(QueueError::NotFound));
}

#[test]
fn shutdown_stops_dispatch_and_waits_for_active_tasks() {
    let mut sys = system(1, 10);
    let a = submit(&mut sys, "a", 1);
    let _b = submit(&mut sys, "b", 2);
    sys.dispatch_next().expect("dispatch a");
    sys.shutdown();
    // No new dispatch after the signal, though B is pending and a permit
    // frees up when A completes.
    assert!(sys.dispatch_next().is_none());
    // The grace wait does not end while a task still runs...
    assert!(!sys.shutdown_wait_done(0));
    assert!(!sys.shutdown_wait_done(29));
    // ...but ends as soon as the running task reaches a terminal state.
    assert!(sys.complete_task(&a, TaskStatus::Completed, None, None, 9));
    assert!(sys.shutdown_wait_done(0));
    assert!(sys.dispatch_next().is_none());
}

#[test]
fn shutdown_wait_gives_up_after_grace_period() {
    let mut sys = system(1, 10);
    let _a = submit(&mut sys, "a", 1);
    sys.dispatch_next().expect("dispatch a");
    sys.shutdown();
    assert!(!sys.shutdown_wait_done(29));
    assert!(sys.shutdown_wait_done(m2k_core::SHUTDOWN_GRACE_UNITS));
    assert!(sys.shutdown_wait_done(31));
}

#[test]
fn get_all_tasks_lists_most_recent_first() {
    let mut sys = system(1, 10);
    let a = submit(&mut sys, "a", 1);
    let b = submit(&mut sys, "b", 2);
    let all = sys.get_all_tasks();
    assert_eq!(all.len(), 2);
    assert_eq!(all[0].id, b);
    assert_eq!(all[1].id, a);
}

#[test]
fn store_refuses_backwards_transitions_and_unknown_ids() {
    let mut store = init_tasks_table();
    store
        .create_task_with_id("t1".to_string(), "p".to_string(), None, Some(3), 1)
        .expect("fresh id");
    assert_eq!(
        store.create_task_with_id("t1".to_string(), "q".to_string(), None, None, 2),
        Err(StoreError::DuplicateId)
    );
    assert_eq!(
        store.update_task_status("nobody", TaskStatus::Running, None, None, 3),
        Err(StoreError::NotFound)
    );
    // Queued -> Queued moves nowhere.
    assert_eq!(
        store.update_task_status("t1", TaskStatus::Queued, None, None, 3),
        Err(StoreError::InvalidTransition)
    );
    assert!(store.update_task_status("t1", TaskStatus::Running, None, None, 3).is_ok());
    // Running -> Queued would regress.
    assert_eq!(
        store.update_task_status("t1", TaskStatus::Queued, None, None, 4),
        Err(StoreError::InvalidTransition)
    );
    assert!(store.update_task_status("t1", TaskStatus::Timeout, None, Some("late".to_string()), 5).is_ok());
    // Terminal records never change again.
    assert_eq!(
        store.update_task_status("t1", TaskStatus::Running, None, None, 6),
        Err(StoreError::InvalidTransition)
    );
    let t = store.get_task("t1").unwrap();
    assert_eq!(t.status, TaskStatus::Timeout);
    assert_eq!(t.completed_at, Some(5));
    assert_eq!(t.priority, 3);
}

#[test]
fn store_records_log_file_when_present() {
    let mut store = init_tasks_table();
    store
        .create_task_with_id("t1".to_string(), "p".to_string(), None, None, 1)
        .expect("fresh id");
    store.set_task_log_file("t1", "/logs/t1.log".to_string());
    assert_eq!(store.get_task("t1").unwrap().log_file.as_deref(), Some("/logs/t1.log"));
    // An unknown id changes nothing.
    store.set_task_log_file("nobody", "/logs/x.log".to_string());
    assert!(store.get_task("nobody").is_none());
}

#[test]
fn queue_error_messages() {
    assert_eq!(QueueError::QueueFull.message(), "Task queue full");
    assert_eq!(QueueError::NotFound.message(), "Task not found");
    assert_eq!(StoreError::DuplicateId.message(), "task id already exists");
    assert_eq!(StoreError::NotFound.message(), "task not found");
    assert_eq!(StoreError::InvalidTransition.message(), "invalid status transition");
}

#[test]
fn default_queue_config() {
    let config = QueueConfig::default();
    assert_eq!(config.max_concurrent, 5);
    assert_eq!(config.max_queue_size, 100);
}
