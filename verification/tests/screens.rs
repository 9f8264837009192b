use photos::gallery_layout::{
    is_visible, neighbour_window, select_next, select_previous, total_rows, visible_range,
};
use photos::import_filter::is_importable_extension;
use photos::import_flow::{
    apply_events, import_step, ImportEvent, ImportFrame, ImportProgress, ImportState,
};
use photos::storage::{storage_decision, LoadPoll, StorageDecision};

#[test]
fn rows_of_a_grid() {
    assert_eq!(total_rows(0, 3), 0);
    assert_eq!(total_rows(9, 3), 3);
    assert_eq!(total_rows(10, 3), 4);
    assert_eq!(total_rows(usize::MAX, 2), usize::MAX / 2 + 1);
}

#[test]
fn visible_items_of_a_grid() {
    // rows 2..4 visible, 3 columns, 30 items: rows 1..5 drawn
    assert_eq!(visible_range(2, 4, 30, 3), (3, 15));
    // scrolled above the top
    assert_eq!(visible_range(-3, 0, 30, 3), (0, 3));
    // bottom clamps to the item count
    assert_eq!(visible_range(8, 20, 30, 3), (21, 30));
    // an end above the top wraps to all rows
    assert_eq!(visible_range(0, -5, 7, 2), (0, 7));
    // a start past the end swaps the bounds
    assert_eq!(visible_range(50, 60, 10, 2), (10, 98));
    let r = visible_range(2, 4, 30, 3);
    assert!(is_visible(r, 3) && is_visible(r, 15) && !is_visible(r, 2) && !is_visible(r, 16));
}

#[test]
fn selection_moves() {
    assert_eq!(select_next(3, 10), 4);
    assert_eq!(select_next(9, 10), 9);
    assert_eq!(select_next(0, 0), 0);
    assert_eq!(select_previous(3), 2);
    assert_eq!(select_previous(0), 0);
    assert_eq!(select_previous(select_next(3, 10)), 3);
    assert_eq!(select_next(select_previous(3), 10), 3);
}

#[test]
fn neighbour_windows() {
    assert_eq!(neighbour_window(10, 4, 100), (6, 14));
    assert_eq!(neighbour_window(2, 4, 100), (0, 6));
    assert_eq!(neighbour_window(98, 4, 100), (94, 99));
    assert_eq!(neighbour_window(0, 4, 1), (0, 0));
    assert_eq!(neighbour_window(usize::MAX - 1, 4, usize::MAX), (usize::MAX - 5, usize::MAX - 1));
}

#[test]
fn importable_extensions() {
    assert!(is_importable_extension("JPG"));
    assert!(is_importable_extension("jpeg"));
    assert!(is_importable_extension("PNG"));
    assert!(!is_importable_extension("jpg"));
    assert!(!is_importable_extension("png"));
    assert!(!is_importable_extension("JPEG"));
    assert!(!is_importable_extension(""));
}

#[test]
fn import_events_fold() {
    assert_eq!(apply_events(0, 0, &[]), (0, 0, false));
    assert_eq!(
        apply_events(0, 0, &[ImportEvent::Progress(1, 5), ImportEvent::Progress(2, 5)]),
        (2, 5, false)
    );
    assert_eq!(
        apply_events(2, 5, &[ImportEvent::Finished, ImportEvent::Progress(5, 5)]),
        (5, 5, true)
    );
}

fn paths(names: &[&str]) -> Vec<String> {
    names.iter().map(|s| s.to_string()).collect()
}

#[test]
fn import_flow_happy_path() {
    let state: ImportState<String> = ImportState::SelectingDirectory;
    let step = import_step(state, ImportFrame::SelectingDirectory { picked: None });
    assert!(matches!(step.state, ImportState::SelectingDirectory));
    let step = import_step(
        step.state,
        ImportFrame::SelectingDirectory { picked: Some("/photos".to_string()) },
    );
    assert!(matches!(&step.state, ImportState::PreparingFileInfo(p) if p == "/photos"));
    let step = import_step(
        step.state,
        ImportFrame::PreparingFileInfo { cancel_clicked: false, discovered: Some(paths(&["a", "b"])) },
    );
    assert!(matches!(&step.state, ImportState::Preview { files_to_import } if files_to_import.len() == 2));
    let step = import_step(
        step.state,
        ImportFrame::Preview { cancelled_on_entry: false, import_clicked: true, cancelled_at_end: false },
    );
    assert!(step.start_import && !step.cancel_or_done);
    assert!(matches!(&step.state, ImportState::Importing { done: 0, total: 0, .. }));
    let step = import_step(
        step.state,
        ImportFrame::Importing { events: vec![ImportEvent::Progress(1, 2)] },
    );
    assert!(step.repaint);
    assert!(matches!(&step.state, ImportState::Importing { done: 1, total: 2, .. }));
    let step = import_step(step.state, ImportFrame::Importing { events: vec![ImportEvent::Finished] });
    assert!(matches!(step.state, ImportState::Done));
    assert!(!step.repaint);
    let step = import_step(step.state, ImportFrame::Done);
    assert!(matches!(step.state, ImportState::Done));
    assert!(step.refresh_images && step.cancel_or_done);
}

#[test]
fn import_flow_cancellation() {
    let state = ImportState::PreparingFileInfo("/d".to_string());
    let step = import_step(state, ImportFrame::PreparingFileInfo { cancel_clicked: true, discovered: None });
    assert!(step.cancel_or_done);
    assert!(matches!(step.state, ImportState::PreparingFileInfo(_)));
    let state = ImportState::Preview { files_to_import: paths(&["a"]) };
    let step = import_step(
        state,
        ImportFrame::Preview { cancelled_on_entry: false, import_clicked: true, cancelled_at_end: true },
    );
    assert!(step.cancel_or_done && !step.start_import);
    assert!(matches!(step.state, ImportState::Done));
    let state = ImportState::Preview { files_to_import: paths(&["a"]) };
    let step = import_step(
        state,
        ImportFrame::Preview { cancelled_on_entry: false, import_clicked: false, cancelled_at_end: false },
    );
    assert!(!step.cancel_or_done && !step.start_import);
    assert!(matches!(step.state, ImportState::Preview { .. }));
    let state: ImportState<String> = ImportState::Importing { files_to_import: vec![], done: 3, total: 3 };
    let step = import_step(state, ImportFrame::Importing { events: vec![] });
    assert!(!step.repaint);
}

#[test]
fn import_progress_from_events() {
    assert_eq!(ImportProgress::from_import_event(&ImportEvent::Progress(2, 7)), ImportProgress::Progress(2, 7));
    assert_eq!(ImportProgress::from_import_event(&ImportEvent::Finished), ImportProgress::Done);
}

#[test]
fn storage_decisions() {
    assert_eq!(storage_decision(true, Some(LoadPoll::Pending)), StorageDecision::UseCached);
    assert_eq!(storage_decision(false, None), StorageDecision::StartLoad);
    assert_eq!(storage_decision(false, Some(LoadPoll::Ready)), StorageDecision::StoreAndUse);
    assert_eq!(storage_decision(false, Some(LoadPoll::Failed)), StorageDecision::Forget);
    assert_eq!(storage_decision(false, Some(LoadPoll::Closed)), StorageDecision::Forget);
    assert_eq!(storage_decision(false, Some(LoadPoll::Pending)), StorageDecision::Wait);
}

#[test]
fn every_item_of_a_visible_row_is_drawn() {
    for n_columns in 1..6usize {
        for n_items in 1..40usize {
            for vs in 0..8isize {
                for ve in vs..10isize {
                    let r = visible_range(vs, ve, n_items, n_columns);
                    for i in 0..n_items {
                        let row = (i / n_columns) as isize;
                        if vs <= row && row <= ve {
                            assert!(is_visible(r, i), "{n_columns} {n_items} {vs} {ve} {i}");
                        }
                    }
                }
            }
        }
    }
}

#[test]
fn window_holds_the_selection() {
    for n in 1..20usize {
        for sel in 0..n {
            let (lo, hi) = neighbour_window(sel, 4, n);
            assert!(lo <= sel && sel <= hi && hi < n);
            assert!(select_next(sel, n) < n);
        }
    }
}
