use photos::scheduler::{
    allowed_priority, can_start, count_running, drain_in_priority_order, priorities_to_run,
    priority_limit, schedule_round, PoppedTask,
};
use photos::task::{QueuedTask, TaskPriority};
use photos::triple_queue::TripleQueue;
use std::sync::Arc;
use tokio::sync::Semaphore;
use tokio_util::sync::CancellationToken;

fn task(id: u32, priority: TaskPriority) -> QueuedTask<u32> {
    QueuedTask::new(id, priority, CancellationToken::new())
}

fn ids(popped: &[PoppedTask<u32>]) -> Vec<(char, u32)> {
    popped
        .iter()
        .map(|p| match p {
            PoppedTask::Start { task, .. } => ('s', task.task),
            PoppedTask::Cancelled(task) => ('c', task.task),
            PoppedTask::NoPermit(task) => ('n', task.task),
        })
        .collect()
}

#[test]
fn priority_limit_values() {
    assert_eq!(priority_limit(TaskPriority::High, 8), 8);
    assert_eq!(priority_limit(TaskPriority::Low, 8), 4);
    assert_eq!(priority_limit(TaskPriority::Lowest, 8), 2);
    assert_eq!(priority_limit(TaskPriority::Low, 1), 1);
    assert_eq!(priority_limit(TaskPriority::Lowest, 3), 1);
    assert_eq!(priority_limit(TaskPriority::High, 0), 0);
}

#[test]
fn priority_limits_are_ordered() {
    for max in 1..40 {
        let h = priority_limit(TaskPriority::High, max);
        let l = priority_limit(TaskPriority::Low, max);
        let ll = priority_limit(TaskPriority::Lowest, max);
        assert!(h >= l && l >= ll && ll >= 1 && h <= max);
    }
}

#[test]
fn count_and_can_start() {
    let running = [TaskPriority::Low, TaskPriority::High, TaskPriority::Low];
    assert_eq!(count_running(&running, TaskPriority::Low), 2);
    assert_eq!(count_running(&running, TaskPriority::Lowest), 0);
    // total limit reached
    assert!(!can_start(TaskPriority::High, &running, 3));
    // Low limit for max 4 is 2, already reached
    assert!(!can_start(TaskPriority::Low, &running, 4));
    assert!(can_start(TaskPriority::High, &running, 4));
    assert!(can_start(TaskPriority::Lowest, &running, 4));
    assert!(!can_start(TaskPriority::High, &[], 0));
}

#[test]
fn cannot_start_stays_when_more_run() {
    let mut running = vec![TaskPriority::Lowest];
    assert!(!can_start(TaskPriority::Lowest, &running, 4));
    running.push(TaskPriority::High);
    assert!(!can_start(TaskPriority::Lowest, &running, 4));
}

#[test]
fn triple_queue_fifo_per_priority() {
    let mut q: TripleQueue<u32> = TripleQueue::default();
    assert!(q.is_empty());
    assert_eq!(q.peek_next_priority(), None);
    q.push(task(1, TaskPriority::Low));
    q.push(task(2, TaskPriority::Lowest));
    q.push(task(3, TaskPriority::Low));
    q.push(task(4, TaskPriority::High));
    assert_eq!((q.len_h(), q.len_l(), q.len_ll()), (1, 2, 1));
    assert_eq!(q.peek_next_priority(), Some(TaskPriority::High));
    assert_eq!(q.pop(TaskPriority::Low).map(|t| t.task), Some(1));
    assert_eq!(q.pop(TaskPriority::Low).map(|t| t.task), Some(3));
    assert!(q.pop(TaskPriority::Low).is_none());
    assert_eq!(q.pop(TaskPriority::High).map(|t| t.task), Some(4));
    assert_eq!(q.peek_next_priority(), Some(TaskPriority::Lowest));
    assert!(!q.is_empty());
    assert_eq!(q.pop(TaskPriority::Lowest).map(|t| t.priority), Some(TaskPriority::Lowest));
    assert!(q.is_empty());
}

#[test]
fn allowed_priority_and_priorities_to_run() {
    let mut q: TripleQueue<u32> = TripleQueue::default();
    assert_eq!(allowed_priority(&[], &q), None);
    q.push(task(1, TaskPriority::Low));
    assert_eq!(allowed_priority(&[], &q), Some(TaskPriority::Low));
    assert_eq!(
        allowed_priority(&[TaskPriority::High, TaskPriority::Lowest, TaskPriority::Low], &q),
        Some(TaskPriority::Lowest)
    );
    assert_eq!(allowed_priority(&[TaskPriority::High], &q), Some(TaskPriority::High));
    assert_eq!(priorities_to_run(None), vec![TaskPriority::High, TaskPriority::Low, TaskPriority::Lowest]);
    assert_eq!(
        priorities_to_run(Some(TaskPriority::Lowest)),
        vec![TaskPriority::High, TaskPriority::Low, TaskPriority::Lowest]
    );
    assert_eq!(priorities_to_run(Some(TaskPriority::Low)), vec![TaskPriority::High, TaskPriority::Low]);
    assert_eq!(priorities_to_run(Some(TaskPriority::High)), vec![TaskPriority::High]);
}

#[test]
fn round_starts_by_priority_within_limits() {
    let mut q: TripleQueue<u32> = TripleQueue::default();
    for i in 0..3 {
        q.push(task(10 + i, TaskPriority::Lowest));
    }
    for i in 0..3 {
        q.push(task(20 + i, TaskPriority::Low));
    }
    q.push(task(30, TaskPriority::High));
    let semaphore = Arc::new(Semaphore::new(4));
    let mut running = Vec::new();
    let popped = schedule_round(&mut q, &mut running, 4, &semaphore);
    // nothing runs, so the most urgent waiting priority, High, sets the bar
    assert_eq!(ids(&popped), vec![('s', 30)]);
    assert_eq!(running, vec![TaskPriority::High]);
    // once High is done, Low may start up to its limit of 2, and Lowest not at all
    running.clear();
    drop(popped);
    let popped = schedule_round(&mut q, &mut running, 4, &semaphore);
    assert_eq!(ids(&popped), vec![('s', 20), ('s', 21)]);
    assert_eq!(running, vec![TaskPriority::Low, TaskPriority::Low]);
    assert_eq!((q.len_h(), q.len_l(), q.len_ll()), (0, 1, 3));
    // while Low tasks run, Lowest tasks still wait and Low is at its limit
    let popped2 = schedule_round(&mut q, &mut running, 4, &semaphore);
    assert!(popped2.is_empty());
    // with only Lowest waiting and nothing running, Lowest may start up to 1 of 4
    running.clear();
    drop(popped);
    let _ = q.pop(TaskPriority::Low);
    let popped = schedule_round(&mut q, &mut running, 4, &semaphore);
    assert_eq!(ids(&popped), vec![('s', 10)]);
    assert_eq!((q.len_h(), q.len_l(), q.len_ll()), (0, 0, 2));
}

#[test]
fn round_only_serves_priorities_as_urgent_as_running_ones() {
    let mut q: TripleQueue<u32> = TripleQueue::default();
    q.push(task(1, TaskPriority::Lowest));
    q.push(task(2, TaskPriority::Low));
    q.push(task(3, TaskPriority::High));
    let semaphore = Arc::new(Semaphore::new(8));
    let mut running = vec![TaskPriority::High];
    let popped = schedule_round(&mut q, &mut running, 8, &semaphore);
    assert_eq!(ids(&popped), vec![('s', 3)]);
    assert_eq!((q.len_h(), q.len_l(), q.len_ll()), (0, 1, 1));
    assert_eq!(running, vec![TaskPriority::High, TaskPriority::High]);
}

#[test]
fn round_skips_cancelled_tasks() {
    let mut q: TripleQueue<u32> = TripleQueue::default();
    let cancelled = CancellationToken::new();
    cancelled.cancel();
    q.push(QueuedTask::new(1, TaskPriority::High, cancelled));
    q.push(task(2, TaskPriority::High));
    let semaphore = Arc::new(Semaphore::new(2));
    let mut running = Vec::new();
    let popped = schedule_round(&mut q, &mut running, 2, &semaphore);
    assert_eq!(ids(&popped), vec![('c', 1), ('s', 2)]);
    assert_eq!(running, vec![TaskPriority::High]);
    assert!(q.is_empty());
}

#[test]
fn round_drops_the_task_that_finds_no_permit() {
    let mut q: TripleQueue<u32> = TripleQueue::default();
    q.push(task(1, TaskPriority::High));
    q.push(task(2, TaskPriority::High));
    q.push(task(3, TaskPriority::Low));
    let semaphore = Arc::new(Semaphore::new(0));
    let mut running = Vec::new();
    let popped = schedule_round(&mut q, &mut running, 4, &semaphore);
    assert_eq!(ids(&popped), vec![('n', 1)]);
    assert!(running.is_empty());
    assert_eq!((q.len_h(), q.len_l(), q.len_ll()), (1, 1, 0));
}

#[test]
fn round_with_nothing_waiting_changes_nothing() {
    let mut q: TripleQueue<u32> = TripleQueue::default();
    let semaphore = Arc::new(Semaphore::new(2));
    let mut running = vec![TaskPriority::Low];
    let popped = schedule_round(&mut q, &mut running, 2, &semaphore);
    assert!(popped.is_empty());
    assert_eq!(running, vec![TaskPriority::Low]);
}

#[test]
fn drain_gives_all_tasks_in_priority_order() {
    let mut q: TripleQueue<u32> = TripleQueue::default();
    q.push(task(1, TaskPriority::Lowest));
    q.push(task(2, TaskPriority::High));
    q.push(task(3, TaskPriority::Low));
    q.push(task(4, TaskPriority::High));
    let drained: Vec<u32> = drain_in_priority_order(&mut q).into_iter().map(|t| t.task).collect();
    assert_eq!(drained, vec![2, 4, 3, 1]);
    assert!(q.is_empty());
}

#[test]
fn queued_tasks_compare_by_priority() {
    assert!(task(1, TaskPriority::Low) == task(2, TaskPriority::Low));
    assert!(task(1, TaskPriority::Low) != task(1, TaskPriority::High));
    assert!(TaskPriority::High < TaskPriority::Low && TaskPriority::Low < TaskPriority::Lowest);
}
