use photos::clustering::{cluster_faces_outcome, ClusteringResult};
use photos::gallery_layout::{gallery_step, GalleryMode, GalleryStep};
use photos::scheduler::{classify_taken, schedule_round, PoppedTask};
use photos::storage::{pending_receiver_decision, ReceiverPoll};
use photos::task::{QueuedTask, TaskPriority};
use photos::triple_queue::TripleQueue;
use photos::workflow::{step_gate, workflow_outcome, JobError, StepError};
use std::sync::Arc;
use tokio::sync::Semaphore;
use tokio_util::sync::CancellationToken;

fn kind(entry: &PoppedTask<u32>) -> (char, u32) {
    match entry {
        PoppedTask::Start { task, .. } => ('s', task.task),
        PoppedTask::Cancelled(task) => ('c', task.task),
        PoppedTask::NoPermit(task) => ('n', task.task),
    }
}

#[test]
fn classify_cancelled_task_is_dropped() {
    let t = QueuedTask::new(7u32, TaskPriority::Low, CancellationToken::new());
    assert_eq!(kind(&classify_taken(t, true, None)), ('c', 7));
}

#[test]
fn classify_live_task_with_permit_starts() {
    let semaphore = Arc::new(Semaphore::new(1));
    let permit = semaphore.clone().try_acquire_owned().ok();
    let t = QueuedTask::new(8u32, TaskPriority::High, CancellationToken::new());
    let entry = classify_taken(t, false, permit);
    assert_eq!(kind(&entry), ('s', 8));
    assert_eq!(semaphore.available_permits(), 0);
    drop(entry);
    assert_eq!(semaphore.available_permits(), 1);
}

#[test]
fn classify_live_task_without_permit_is_refused() {
    let t = QueuedTask::new(9u32, TaskPriority::Lowest, CancellationToken::new());
    assert_eq!(kind(&classify_taken(t, false, None)), ('n', 9));
}

#[test]
fn task_cancelled_before_dequeue_never_starts_nor_takes_a_permit() {
    let mut q: TripleQueue<u32> = TripleQueue::default();
    let token = CancellationToken::new();
    q.push(QueuedTask::new(1, TaskPriority::High, token.clone()));
    token.cancel();
    let semaphore = Arc::new(Semaphore::new(1));
    let mut running = Vec::new();
    let popped = schedule_round(&mut q, &mut running, 4, &semaphore);
    assert_eq!(popped.iter().map(kind).collect::<Vec<_>>(), vec![('c', 1)]);
    assert!(running.is_empty());
    assert_eq!(semaphore.available_permits(), 1);
    assert!(q.is_empty());
}

#[test]
fn live_task_takes_the_permit() {
    let mut q: TripleQueue<u32> = TripleQueue::default();
    q.push(QueuedTask::new(2, TaskPriority::Low, CancellationToken::new()));
    let semaphore = Arc::new(Semaphore::new(1));
    let mut running = Vec::new();
    let popped = schedule_round(&mut q, &mut running, 4, &semaphore);
    assert_eq!(popped.iter().map(kind).collect::<Vec<_>>(), vec![('s', 2)]);
    assert_eq!(running, vec![TaskPriority::Low]);
    assert_eq!(semaphore.available_permits(), 0);
}

#[test]
fn workflow_with_all_steps_done_succeeds() {
    assert!(workflow_outcome(vec![Ok(Ok(())), Ok(Ok(()))]).is_ok());
    assert!(workflow_outcome(Vec::new()).is_ok());
}

#[test]
fn workflow_fails_with_the_first_failed_step() {
    let result = workflow_outcome(vec![
        Ok(Ok(())),
        Ok(Err(StepError::Cancelled)),
        Ok(Err(StepError::Failed("later".to_string()))),
    ]);
    match result {
        Err(JobError::StepFailed { error: StepError::Cancelled, .. }) => {}
        other => panic!("unexpected {:?}", other),
    }
}

#[test]
fn workflow_step_that_did_not_finish_fails_it() {
    let result = workflow_outcome(vec![Err("panicked".to_string()), Ok(Err(StepError::Cancelled))]);
    match result {
        Err(JobError::StepFailed { error: StepError::Failed(m), .. }) => assert_eq!(m, "panicked"),
        other => panic!("unexpected {:?}", other),
    }
}

#[test]
fn step_gate_stops_cancelled_jobs() {
    assert!(matches!(step_gate(true), Err(StepError::Cancelled)));
    assert!(step_gate(false).is_ok());
}

#[test]
fn gallery_click_opens_the_image() {
    let step = gallery_step(GalleryMode::Grid, Some(3), false, false, false, 10);
    assert_eq!(step, GalleryStep { mode: GalleryMode::FullImage { selected: 3 }, cancel_loads: true });
    let step = gallery_step(GalleryMode::Grid, None, true, false, true, 10);
    assert_eq!(step, GalleryStep { mode: GalleryMode::Grid, cancel_loads: false });
}

#[test]
fn gallery_arrows_move_within_the_images() {
    let open = |selected| GalleryMode::FullImage { selected };
    assert_eq!(gallery_step(open(3), None, true, false, false, 10).mode, open(4));
    assert_eq!(gallery_step(open(9), None, true, false, false, 10).mode, open(9));
    assert_eq!(gallery_step(open(3), None, false, true, false, 10).mode, open(2));
    assert_eq!(gallery_step(open(0), None, false, true, false, 10).mode, open(0));
    assert_eq!(gallery_step(open(3), None, true, true, false, 10).mode, open(3));
    assert!(!gallery_step(open(3), None, true, false, false, 10).cancel_loads);
}

#[test]
fn gallery_escape_returns_to_the_grid() {
    let step = gallery_step(GalleryMode::FullImage { selected: 5 }, None, false, false, true, 10);
    assert_eq!(step, GalleryStep { mode: GalleryMode::Grid, cancel_loads: true });
}

#[test]
fn cluster_faces_with_no_embeddings() {
    let (updates, summary) = cluster_faces_outcome(&[], None);
    assert!(updates.is_empty());
    assert_eq!((summary.n_clusters, summary.n_processed), (0, 0));
}

#[test]
fn cluster_faces_assigns_face_ids() {
    let clustering = ClusteringResult { labels: vec![0, -1, 1, 0], n_clusters: 2 };
    let (updates, summary) = cluster_faces_outcome(&[11, 12, 13, 14], Some(&clustering));
    assert_eq!(updates, vec![(11, Some(0)), (12, None), (13, Some(1)), (14, Some(0))]);
    assert_eq!((summary.n_clusters, summary.n_processed), (2, 4));
}

#[test]
fn pending_receiver_decisions() {
    let d = pending_receiver_decision(ReceiverPoll::ReadyOk);
    assert!(d.keep_result && d.drop_receiver);
    let d = pending_receiver_decision(ReceiverPoll::ReadyErr);
    assert!(!d.keep_result && d.drop_receiver);
    for poll in [ReceiverPoll::OtherEvent, ReceiverPoll::Empty, ReceiverPoll::Closed] {
        let d = pending_receiver_decision(poll);
        assert!(!d.keep_result && !d.drop_receiver);
    }
}
