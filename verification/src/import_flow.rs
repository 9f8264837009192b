//! The decisions of the import screen: from picking a directory, through the preview
//! of the files found, to the import's progress and its end.

use vstd::prelude::*;

verus! {

/// The stage the import screen is in. `P` is the path type of the files.
pub enum ImportState<P> {
    SelectingDirectory,
    PreparingFileInfo(P),
    Preview { files_to_import: Vec<P> },
    Importing { files_to_import: Vec<P>, done: u64, total: u64 },
    Done,
}

/// A progress report of a running import job.
#[derive(Clone, Copy, Debug, PartialEq, Eq, Structural)]
pub enum ImportEvent {
    /// `done` of `total` items are imported.
    Progress(u64, u64),
    /// The job ended, or handed over to the next job.
    Finished,
}

/// What happened on screen during one frame, for the stage the screen is in.
pub enum ImportFrame<P> {
    SelectingDirectory { picked: Option<P> },
    PreparingFileInfo { cancel_clicked: bool, discovered: Option<Vec<P>> },
    /// Whether the screen's cancellation token was cancelled when the frame began and
    /// when it ended, and whether "Import" was clicked.
    Preview { cancelled_on_entry: bool, import_clicked: bool, cancelled_at_end: bool },
    /// The job events received during the frame, in order.
    Importing { events: Vec<ImportEvent> },
    Done,
}

/// The next stage and what the screen must do.
pub struct ImportStep<P> {
    pub state: ImportState<P>,
    /// Leave the import screen.
    pub cancel_or_done: bool,
    /// Start importing the previewed files.
    pub start_import: bool,
    /// Reload the library's image list.
    pub refresh_images: bool,
    /// Draw another frame soon, as the import is still running.
    pub repaint: bool,
}

/// The frame reports what can happen in the stage the screen is in.
pub open spec fn frame_matches<P>(state: ImportState<P>, frame: ImportFrame<P>) -> bool {
    match state {
        ImportState::SelectingDirectory => frame is SelectingDirectory,
        ImportState::PreparingFileInfo(_) => frame is PreparingFileInfo,
        ImportState::Preview { .. } => frame is Preview,
        ImportState::Importing { .. } => frame is Importing,
        ImportState::Done => frame is Done,
    }
}

/// The progress after the events, and whether the job has ended: every progress report
/// replaces the counts, and an end report ends the job.
pub open spec fn apply_import_events(done: u64, total: u64, events: Seq<ImportEvent>) -> (u64, u64, bool)
    decreases events.len(),
{
    if events.len() == 0 {
        (done, total, false)
    } else {
        let (d, t, finished) = apply_import_events(done, total, events.drop_last());
        match events.last() {
            ImportEvent::Progress(nd, nt) => (nd, nt, finished),
            ImportEvent::Finished => (d, t, true),
        }
    }
}

/// Folds a frame's job events into the progress counts.
pub fn apply_events(done: u64, total: u64, events: &[ImportEvent]) -> (result: (u64, u64, bool))
    ensures
        result == apply_import_events(done, total, events@),
{
    let mut d = done;
    let mut t = total;
    let mut finished = false;
    let mut i: usize = 0;
    while i < events.len()
        invariant
            i <= events@.len(),
            (d, t, finished) == apply_import_events(done, total, events@.take(i as int)),
        decreases events@.len() - i,
    {
        assert(events@.take(i + 1).drop_last() =~= events@.take(i as int));
        match events[i] {
            ImportEvent::Progress(nd, nt) => {
                d = nd;
                t = nt;
            },
            ImportEvent::Finished => {
                finished = true;
            },
        }
        i = i + 1;
    }
    assert(events@.take(i as int) =~= events@);
    (d, t, finished)
}

/// One frame of the import screen.
///
/// - Selecting a directory: a picked directory moves on to preparing its file list.
/// - Preparing: "Cancel" leaves the screen; a discovered file list moves on to the preview.
/// - Preview: a cancellation, at the frame's start or end, leaves the screen and ends the
///   flow; otherwise "Import" starts importing the files.
/// - Importing: the job events update the counts; an ended job ends the flow; while the
///   job runs and fewer items are done than there are, the screen is redrawn.
/// - Done: the image list is reloaded and the screen is left.
pub fn import_step<P>(state: ImportState<P>, frame: ImportFrame<P>) -> (step: ImportStep<P>)
    requires
        frame_matches(state, frame),
    ensures
        match (state, frame) {
            (ImportState::SelectingDirectory, ImportFrame::SelectingDirectory { picked }) => {
                &&& match picked {
                    Some(p) => step.state == ImportState::<P>::PreparingFileInfo(p),
                    None => step.state == ImportState::<P>::SelectingDirectory,
                }
                &&& !step.cancel_or_done && !step.start_import && !step.refresh_images && !step.repaint
            },
            (
                ImportState::PreparingFileInfo(dir),
                ImportFrame::PreparingFileInfo { cancel_clicked, discovered },
            ) => {
                &&& match discovered {
                    Some(items) => step.state == ImportState::Preview { files_to_import: items },
                    None => step.state == ImportState::<P>::PreparingFileInfo(dir),
                }
                &&& step.cancel_or_done == cancel_clicked
                &&& !step.start_import && !step.refresh_images && !step.repaint
            },
            (
                ImportState::Preview { files_to_import },
                ImportFrame::Preview { cancelled_on_entry, import_clicked, cancelled_at_end },
            ) => {
                &&& (if cancelled_on_entry || cancelled_at_end {
                    step.state == ImportState::<P>::Done && step.cancel_or_done && !step.start_import
                } else if import_clicked {
                    step.state == ImportState::Importing { files_to_import, done: 0, total: 0 }
                        && !step.cancel_or_done && step.start_import
                } else {
                    step.state == ImportState::Preview { files_to_import } && !step.cancel_or_done
                        && !step.start_import
                })
                &&& !step.refresh_images && !step.repaint
            },
            (
                ImportState::Importing { files_to_import, done, total },
                ImportFrame::Importing { events },
            ) => {
                let (d, t, finished) = apply_import_events(done, total, events@);
                &&& if finished {
                    step.state == ImportState::<P>::Done
                } else {
                    step.state == ImportState::Importing { files_to_import, done: d, total: t }
                }
                &&& step.repaint == (!finished && d < t)
                &&& !step.cancel_or_done && !step.start_import && !step.refresh_images
            },
            _ => {
                &&& step.state == ImportState::<P>::Done
                &&& step.cancel_or_done && step.refresh_images
                &&& !step.start_import && !step.repaint
            },
        },
{
    match state {
        ImportState::SelectingDirectory => {
            let next = match frame {
                ImportFrame::SelectingDirectory { picked: Some(p) } => ImportState::PreparingFileInfo(p),
                _ => ImportState::SelectingDirectory,
            };
            ImportStep {
                state: next,
                cancel_or_done: false,
                start_import: false,
                refresh_images: false,
                repaint: false,
            }
        },
        ImportState::PreparingFileInfo(dir) => {
            match frame {
                ImportFrame::PreparingFileInfo { cancel_clicked, discovered } => {
                    let next = match discovered {
                        Some(items) => ImportState::Preview { files_to_import: items },
                        None => ImportState::PreparingFileInfo(dir),
                    };
                    ImportStep {
                        state: next,
                        cancel_or_done: cancel_clicked,
                        start_import: false,
                        refresh_images: false,
                        repaint: false,
                    }
                },
                _ => ImportStep {
                    state: ImportState::PreparingFileInfo(dir),
                    cancel_or_done: false,
                    start_import: false,
                    refresh_images: false,
                    repaint: false,
                },
            }
        },
        ImportState::Preview { files_to_import } => {
            match frame {
                ImportFrame::Preview { cancelled_on_entry, import_clicked, cancelled_at_end } => {
                    if cancelled_on_entry || cancelled_at_end {
                        ImportStep {
                            state: ImportState::Done,
                            cancel_or_done: true,
                            start_import: false,
                            refresh_images: false,
                            repaint: false,
                        }
                    } else if import_clicked {
                        ImportStep {
                            state: ImportState::Importing { files_to_import, done: 0, total: 0 },
                            cancel_or_done: false,
                            start_import: true,
                            refresh_images: false,
                            repaint: false,
                        }
                    } else {
                        ImportStep {
                            state: ImportState::Preview { files_to_import },
                            cancel_or_done: false,
                            start_import: false,
                            refresh_images: false,
                            repaint: false,
                        }
                    }
                },
                _ => ImportStep {
                    state: ImportState::Preview { files_to_import },
                    cancel_or_done: false,
                    start_import: false,
                    refresh_images: false,
                    repaint: false,
                },
            }
        },
        ImportState::Importing { files_to_import, done, total } => {
            match frame {
                ImportFrame::Importing { events } => {
                    let (d, t, finished): (u64, u64, bool) = apply_events(done, total, events.as_slice());
                    let next = if finished {
                        ImportState::Done
                    } else {
                        ImportState::Importing { files_to_import, done: d, total: t }
                    };
                    ImportStep {
                        state: next,
                        cancel_or_done: false,
                        start_import: false,
                        refresh_images: false,
                        repaint: !finished && d < t,
                    }
                },
                _ => ImportStep {
                    state: ImportState::Importing { files_to_import, done, total },
                    cancel_or_done: false,
                    start_import: false,
                    refresh_images: false,
                    repaint: false,
                },
            }
        },
        ImportState::Done => ImportStep {
            state: ImportState::Done,
            cancel_or_done: true,
            start_import: false,
            refresh_images: true,
            repaint: false,
        },
    }
}

/// The import progress that the import screen shows.
#[derive(Clone, Copy, Debug, PartialEq, Eq, Structural)]
pub enum ImportProgress {
    Progress(u64, u64),
    Done,
}

impl ImportProgress {
    /// The progress that a job event reports.
    pub fn from_import_event(event: &ImportEvent) -> (progress: Self)
        ensures
            match *event {
                ImportEvent::Progress(current, total) => progress == ImportProgress::Progress(current, total),
                ImportEvent::Finished => progress == ImportProgress::Done,
            },
    {
        match event {
            ImportEvent::Progress(current, total) => ImportProgress::Progress(*current, *total),
            ImportEvent::Finished => ImportProgress::Done,
        }
    }
}

} // verus!
