//! The scheduling rules of the task queue: how many tasks of each priority may run
//! at once, which priorities may start while others run, and one scheduling round
//! that moves waiting tasks to running ones.

use crate::task::{rank, token_is_cancelled, try_acquire_permit, QueuedTask, TaskPriority, TokenCheck};
use crate::triple_queue::TripleQueue;
use std::sync::Arc;
use tokio::sync::{OwnedSemaphorePermit, Semaphore};
use vstd::prelude::*;

verus! {

/// The most tasks of one priority that may run at once when `max` may run in all.
pub open spec fn spec_priority_limit(priority: TaskPriority, max: int) -> int {
    match priority {
        TaskPriority::High => max,
        TaskPriority::Low => if max / 2 >= 1 {
            max / 2
        } else {
            1
        },
        TaskPriority::Lowest => if max / 4 >= 1 {
            max / 4
        } else {
            1
        },
    }
}

/// How many entries of `running` have the given priority.
pub open spec fn count_priority(running: Seq<TaskPriority>, priority: TaskPriority) -> nat
    decreases running.len(),
{
    if running.len() == 0 {
        0
    } else {
        count_priority(running.drop_last(), priority) + if running.last() == priority {
            1nat
        } else {
            0nat
        }
    }
}

/// A task of the given priority may start next to `running`.
pub open spec fn spec_can_start(priority: TaskPriority, running: Seq<TaskPriority>, max: int) -> bool {
    &&& running.len() < max
    &&& count_priority(running, priority) < spec_priority_limit(priority, max)
}

/// The running tasks respect the total limit and the limit of every priority.
pub open spec fn within_limits(running: Seq<TaskPriority>, max: int) -> bool {
    &&& running.len() <= max
    &&& forall|p: TaskPriority| #[trigger] count_priority(running, p) <= spec_priority_limit(p, max)
}

/// The least urgent priority among the running tasks (the greatest in the derived order).
pub open spec fn least_urgent(running: Seq<TaskPriority>) -> TaskPriority
    decreases running.len(),
{
    if running.len() <= 1 {
        running[0]
    } else if rank(running.last()) >= rank(least_urgent(running.drop_last())) {
        running.last()
    } else {
        least_urgent(running.drop_last())
    }
}

/// The least urgent priority that may run in this round: that of the least urgent
/// running task, or, when none runs, the most urgent waiting one.
pub open spec fn spec_allowed_priority(
    running: Seq<TaskPriority>,
    next_waiting: Option<TaskPriority>,
) -> Option<TaskPriority> {
    if running.len() > 0 {
        Some(least_urgent(running))
    } else {
        next_waiting
    }
}

/// A priority may start tasks in a round whose allowed priority is `allowed`.
pub open spec fn runnable(allowed: Option<TaskPriority>, priority: TaskPriority) -> bool {
    match allowed {
        None => true,
        Some(a) => rank(priority) <= rank(a),
    }
}

/// The priorities served in a round, most urgent first.
pub open spec fn spec_priorities_to_run(allowed: Option<TaskPriority>) -> Seq<TaskPriority> {
    match allowed {
        None => seq![TaskPriority::High, TaskPriority::Low, TaskPriority::Lowest],
        Some(TaskPriority::Lowest) => seq![TaskPriority::High, TaskPriority::Low, TaskPriority::Lowest],
        Some(TaskPriority::Low) => seq![TaskPriority::High, TaskPriority::Low],
        Some(TaskPriority::High) => seq![TaskPriority::High],
    }
}

/// What became of a task taken from the queue in a scheduling round.
pub enum PoppedTask<T> {
    /// It is to be spawned now, holding the permit.
    Start { task: QueuedTask<T>, permit: OwnedSemaphorePermit },
    /// Its token was cancelled; it is dropped.
    Cancelled(QueuedTask<T>),
    /// No permit was free when it was taken; it is dropped and the priority's turn ends.
    NoPermit(QueuedTask<T>),
}

/// The queued task inside a popped entry.
pub open spec fn popped_task<T>(popped: PoppedTask<T>) -> QueuedTask<T> {
    match popped {
        PoppedTask::Start { task, .. } => task,
        PoppedTask::Cancelled(task) => task,
        PoppedTask::NoPermit(task) => task,
    }
}

/// The priorities of the started entries, in order.
pub open spec fn started_priorities<T>(popped: Seq<PoppedTask<T>>) -> Seq<TaskPriority>
    decreases popped.len(),
{
    if popped.len() == 0 {
        Seq::empty()
    } else {
        let rest = started_priorities(popped.drop_last());
        match popped.last() {
            PoppedTask::Start { task, .. } => rest.push(task.priority),
            _ => rest,
        }
    }
}

/// Some task of the given priority was taken when no permit was free.
pub open spec fn refused<T>(popped: Seq<PoppedTask<T>>, priority: TaskPriority) -> bool {
    exists|j: int|
        0 <= j < popped.len() && (#[trigger] popped[j]) is NoPermit && popped_task(popped[j]).priority
            == priority
}

/// The tasks that left a queue: the front of `before` that `after` no longer holds.
pub open spec fn removed<T>(before: Seq<QueuedTask<T>>, after: Seq<QueuedTask<T>>) -> Seq<QueuedTask<T>> {
    before.take(before.len() - after.len())
}

/// `after` is what is left of `before` once some tasks were taken from its front.
pub open spec fn is_rest_of<T>(before: Seq<QueuedTask<T>>, after: Seq<QueuedTask<T>>) -> bool {
    &&& after.len() <= before.len()
    &&& after == before.skip(before.len() - after.len())
}

/// How many tasks of a priority may run at once out of `max`: all of them for `High`,
/// half (rounded down) for `Low` and a quarter (rounded down) for `Lowest`, but never
/// fewer than one.
pub fn priority_limit(priority: TaskPriority, max: usize) -> (limit: usize)
    ensures
        limit == spec_priority_limit(priority, max as int),
        priority == TaskPriority::High ==> limit == max,
        priority == TaskPriority::Low ==> limit >= 1 && (max >= 2 ==> 2 * limit <= max < 2 * limit
            + 2) && (max < 2 ==> limit == 1),
        priority == TaskPriority::Lowest ==> limit >= 1 && (max >= 4 ==> 4 * limit <= max < 4
            * limit + 4) && (max < 4 ==> limit == 1),
{
    match priority {
        TaskPriority::High => max,
        TaskPriority::Low => if max / 2 >= 1 {
            max / 2
        } else {
            1
        },
        TaskPriority::Lowest => if max / 4 >= 1 {
            max / 4
        } else {
            1
        },
    }
}

/// Counting over a concatenation adds the counts.
pub proof fn lemma_count_concat(a: Seq<TaskPriority>, b: Seq<TaskPriority>, priority: TaskPriority)
    ensures
        count_priority(a + b, priority) == count_priority(a, priority) + count_priority(b, priority),
    decreases b.len(),
{
    if b.len() == 0 {
        assert(a + b =~= a);
    } else {
        lemma_count_concat(a, b.drop_last(), priority);
        assert((a + b).drop_last() =~= a + b.drop_last());
    }
}

/// No entry has a priority other than the one counted.
proof fn lemma_count_all_same(s: Seq<TaskPriority>, p: TaskPriority, q: TaskPriority)
    requires
        forall|k: int| 0 <= k < s.len() ==> s[k] == p,
    ensures
        count_priority(s, p) == s.len(),
        q != p ==> count_priority(s, q) == 0,
    decreases s.len(),
{
    if s.len() > 0 {
        lemma_count_all_same(s.drop_last(), p, q);
    }
}

pub fn count_running(running: &[TaskPriority], priority: TaskPriority) -> (n: usize)
    ensures
        n == count_priority(running@, priority),
{
    let mut n: usize = 0;
    let mut i: usize = 0;
    while i < running.len()
        invariant
            i <= running@.len(),
            n == count_priority(running@.take(i as int), priority),
            n <= i,
        decreases running@.len() - i,
    {
        assert(running@.take(i + 1).drop_last() =~= running@.take(i as int));
        if running[i] == priority {
            n = n + 1;
        }
        i = i + 1;
    }
    assert(running@.take(i as int) =~= running@);
    n
}

pub fn can_start(priority: TaskPriority, running: &[TaskPriority], max: usize) -> (ok: bool)
    ensures
        ok == spec_can_start(priority, running@, max as int),
{
    let total_running: usize = running.len();
    if total_running >= max {
        return false;
    }
    let running_of_priority: usize = count_running(running, priority);
    running_of_priority < priority_limit(priority, max)
}

/// The least urgent of the running priorities, or the most urgent waiting one when
/// nothing runs.
pub fn allowed_priority<T>(running: &[TaskPriority], queues: &TripleQueue<T>) -> (allowed: Option<
    TaskPriority,
>)
    ensures
        allowed == spec_allowed_priority(running@, queues.next_priority()),
{
    if running.len() == 0 {
        return queues.peek_next_priority();
    }
    let mut least = running[0];
    let mut i: usize = 1;
    while i < running.len()
        invariant
            1 <= i <= running@.len(),
            least == least_urgent(running@.take(i as int)),
        decreases running@.len() - i,
    {
        let ghost prefix = running@.take(i + 1);
        assert(prefix.drop_last() =~= running@.take(i as int));
        let p = running[i];
        if (match p {
            TaskPriority::High => 0u8,
            TaskPriority::Low => 1u8,
            TaskPriority::Lowest => 2u8,
        }) >= (match least {
            TaskPriority::High => 0u8,
            TaskPriority::Low => 1u8,
            TaskPriority::Lowest => 2u8,
        }) {
            least = p;
        }
        i = i + 1;
    }
    assert(running@.take(i as int) =~= running@);
    Some(least)
}

/// The priorities served in a round, most urgent first: every priority at least as
/// urgent as the allowed one.
pub fn priorities_to_run(allowed: Option<TaskPriority>) -> (to_run: Vec<TaskPriority>)
    ensures
        to_run@ == spec_priorities_to_run(allowed),
{
    match allowed {
        None | Some(TaskPriority::Lowest) => vec![TaskPriority::High, TaskPriority::Low, TaskPriority::Lowest],
        Some(TaskPriority::Low) => vec![TaskPriority::High, TaskPriority::Low],
        Some(TaskPriority::High) => vec![TaskPriority::High],
    }
}

/// The priorities served in a round are, in order, exactly the runnable ones.
pub proof fn lemma_priorities_to_run(allowed: Option<TaskPriority>, priority: TaskPriority)
    ensures
        forall|j: int|
            0 <= j < spec_priorities_to_run(allowed).len() ==> rank(
                #[trigger] spec_priorities_to_run(allowed)[j],
            ) == j,
        runnable(allowed, priority) <==> rank(priority) < spec_priorities_to_run(allowed).len(),
{
}


/// Starting tasks adds their priorities to the running ones in order.
proof fn lemma_started_concat<T>(a: Seq<PoppedTask<T>>, b: Seq<PoppedTask<T>>)
    ensures
        started_priorities(a + b) == started_priorities(a) + started_priorities(b),
    decreases b.len(),
{
    if b.len() == 0 {
        assert(a + b =~= a);
        assert(started_priorities(a) + started_priorities(b) =~= started_priorities(a));
    } else {
        lemma_started_concat(a, b.drop_last());
        assert((a + b).drop_last() =~= a + b.drop_last());
        match b.last() {
            PoppedTask::Start { task, .. } => {
                assert(started_priorities(a) + started_priorities(b) =~= (started_priorities(a)
                    + started_priorities(b.drop_last())).push(task.priority));
            },
            _ => {},
        }
    }
}

/// A task that cannot start next to `running` cannot start once more tasks run.
pub proof fn lemma_cannot_start_stays(
    priority: TaskPriority,
    running: Seq<TaskPriority>,
    more: Seq<TaskPriority>,
    max: int,
)
    requires
        !spec_can_start(priority, running, max),
    ensures
        !spec_can_start(priority, running + more, max),
{
    lemma_count_concat(running, more, priority);
}

/// Each taken task was classified by a look at its own token: `checks[k]` looked at
/// the token of the `k`-th task taken, and that task was dropped as cancelled exactly
/// when the look found the token cancelled; a task found live was started or refused.
pub open spec fn classified_by_checks<T>(popped: Seq<PoppedTask<T>>, checks: Seq<TokenCheck>) -> bool {
    &&& checks.len() == popped.len()
    &&& forall|k: int|
        0 <= k < popped.len() ==> (#[trigger] checks[k]).token() == popped_task(popped[k]).cancel
            && (popped[k] is Cancelled <==> checks[k].cancelled())
}

/// In a round classified by looks at the tasks' own tokens, no task whose token was
/// found cancelled is started or refused a permit, and every started or refused task
/// had its own token found live.
pub proof fn lemma_cancelled_tasks_never_start<T>(popped: Seq<PoppedTask<T>>, checks: Seq<TokenCheck>)
    requires
        classified_by_checks(popped, checks),
    ensures
        forall|k: int|
            0 <= k < popped.len() && (#[trigger] popped[k]) is Start ==> !checks[k].cancelled()
                && checks[k].token() == popped_task(popped[k]).cancel,
        forall|k: int|
            0 <= k < popped.len() && (#[trigger] checks[k]).cancelled() ==> popped[k] is Cancelled,
{
}

/// Looks that classify two runs of taken tasks classify the two runs together.
proof fn lemma_checks_concat<T>(
    a: Seq<PoppedTask<T>>,
    ca: Seq<TokenCheck>,
    b: Seq<PoppedTask<T>>,
    cb: Seq<TokenCheck>,
)
    requires
        classified_by_checks(a, ca),
        classified_by_checks(b, cb),
    ensures
        classified_by_checks(a + b, ca + cb),
{
    assert forall|k: int| 0 <= k < (a + b).len() implies (#[trigger] (ca + cb)[k]).token()
        == popped_task((a + b)[k]).cancel && ((a + b)[k] is Cancelled <==> (ca + cb)[k].cancelled()) by {
        if k < a.len() {
            assert((a + b)[k] == a[k]);
            assert((ca + cb)[k] == ca[k]);
        } else {
            assert((a + b)[k] == b[k - a.len()]);
            assert((ca + cb)[k] == cb[k - a.len()]);
        }
    }
}

/// What becomes of a task taken from the queue, given whether its token was found
/// cancelled and, for a live task, the permit that was asked for: a cancelled task is
/// dropped (no permit is asked for it), a live task with a permit starts, and a live
/// task without one is dropped and ends its priority's turn.
pub fn classify_taken<T>(
    task: QueuedTask<T>,
    cancelled: bool,
    permit: Option<OwnedSemaphorePermit>,
) -> (entry: PoppedTask<T>)
    requires
        cancelled ==> permit is None,
    ensures
        cancelled ==> entry == PoppedTask::Cancelled(task),
        !cancelled ==> entry == match permit {
            Some(p) => PoppedTask::Start { task, permit: p },
            None => PoppedTask::NoPermit(task),
        },
{
    if cancelled {
        PoppedTask::Cancelled(task)
    } else {
        match permit {
            Some(p) => PoppedTask::Start { task, permit: p },
            None => PoppedTask::NoPermit(task),
        }
    }
}

/// Takes tasks of one priority while the queue holds any task and the priority may
/// start another one, until a task is refused a permit.
fn start_tasks_of_priority<T>(
    queues: &mut TripleQueue<T>,
    running: &mut Vec<TaskPriority>,
    priority: TaskPriority,
    max: usize,
    semaphore: &Arc<Semaphore>,
    popped: &mut Vec<PoppedTask<T>>,
) -> (checks: Ghost<Seq<TokenCheck>>)
    requires
        old(queues).wf(),
    ensures
        final(queues).wf(),
        classified_by_checks(
            final(popped)@.subrange(old(popped)@.len() as int, final(popped)@.len() as int),
            checks@,
        ),
        forall|q: TaskPriority| q != priority ==> final(queues).queue(q) == old(queues).queue(q),
        is_rest_of(old(queues).queue(priority), final(queues).queue(priority)),
        old(popped)@.len() <= final(popped)@.len(),
        final(popped)@.subrange(0, old(popped)@.len() as int) == old(popped)@,
        final(popped)@.subrange(old(popped)@.len() as int, final(popped)@.len() as int).map_values(
            |x: PoppedTask<T>| popped_task(x),
        ) == removed(old(queues).queue(priority), final(queues).queue(priority)),
        final(running)@ == old(running)@ + started_priorities(
            final(popped)@.subrange(old(popped)@.len() as int, final(popped)@.len() as int),
        ),
        forall|k: int|
            0 <= k < started_priorities(
                final(popped)@.subrange(old(popped)@.len() as int, final(popped)@.len() as int),
            ).len() ==> #[trigger] started_priorities(
                final(popped)@.subrange(old(popped)@.len() as int, final(popped)@.len() as int),
            )[k] == priority,
        started_priorities(
            final(popped)@.subrange(old(popped)@.len() as int, final(popped)@.len() as int),
        ).len() > 0 ==> final(running)@.len() <= max && count_priority(final(running)@, priority)
            <= spec_priority_limit(priority, max as int),
        final(queues).spec_is_empty() || final(queues).queue(priority).len() == 0 || !spec_can_start(
            priority,
            final(running)@,
            max as int,
        ) || refused(
            final(popped)@.subrange(old(popped)@.len() as int, final(popped)@.len() as int),
            priority,
        ),
{
    let ghost queues0 = *queues;
    let ghost q0 = queues.queue(priority);
    let ghost running0 = running@;
    let ghost popped0 = popped@;
    let ghost mut checks: Seq<TokenCheck> = Seq::empty();
    assert(q0.skip(0) =~= q0);
    loop
        invariant
            queues.wf(),
            classified_by_checks(popped@.subrange(popped0.len() as int, popped@.len() as int), checks),
            forall|q: TaskPriority| q != priority ==> queues.queue(q) == queues0.queue(q),
            queues0.queue(priority) == q0,
            is_rest_of(q0, queues.queue(priority)),
            popped0.len() <= popped@.len(),
            popped@.subrange(0, popped0.len() as int) == popped0,
            popped@.subrange(popped0.len() as int, popped@.len() as int).map_values(
                |x: PoppedTask<T>| popped_task(x),
            ) == removed(q0, queues.queue(priority)),
            running@ == running0 + started_priorities(
                popped@.subrange(popped0.len() as int, popped@.len() as int),
            ),
            forall|k: int|
                0 <= k < started_priorities(
                    popped@.subrange(popped0.len() as int, popped@.len() as int),
                ).len() ==> #[trigger] started_priorities(
                    popped@.subrange(popped0.len() as int, popped@.len() as int),
                )[k] == priority,
            started_priorities(popped@.subrange(popped0.len() as int, popped@.len() as int)).len()
                > 0 ==> running@.len() <= max && count_priority(running@, priority)
                <= spec_priority_limit(priority, max as int),
        ensures
            queues.spec_is_empty() || queues.queue(priority).len() == 0 || !spec_can_start(
                priority,
                running@,
                max as int,
            ) || refused(popped@.subrange(popped0.len() as int, popped@.len() as int), priority),
        decreases queues.queue(priority).len(),
    {
        if queues.is_empty() || !can_start(priority, running.as_slice(), max) {
            break;
        }
        let ghost before_pop = queues.queue(priority);
        let ghost popped_before = popped@;
        let ghost new_before = popped@.subrange(popped0.len() as int, popped@.len() as int);
        let ghost running_before = running@;
        match queues.pop(priority) {
            None => {
                break;
            },
            Some(t) => {
                assert(t.priority == priority);
                let ghost removed_before = removed(q0, before_pop);
                proof {
                    // the task taken is the next one of the original queue
                    let n = q0.len() - before_pop.len();
                    assert(before_pop[0] == q0[n]);
                    assert(removed(q0, queues.queue(priority)) =~= removed_before.push(t));
                    assert(queues.queue(priority) =~= q0.skip(q0.len() - queues.queue(priority).len()));
                }
                let ghost taken = t;
                let QueuedTask { task, priority: task_priority, cancel } = t;
                let check = token_is_cancelled(cancel);
                let ghost look = check;
                let cancelled = check.is_cancelled();
                let permit = if cancelled {
                    None
                } else {
                    try_acquire_permit(semaphore)
                };
                let t = QueuedTask { task, priority: task_priority, cancel: check.into_token() };
                let entry = classify_taken(t, cancelled, permit);
                let ghost checks_before = checks;
                proof {
                    checks = checks.push(look);
                }
                match entry {
                    PoppedTask::Cancelled(t) => {
                        assert(t == taken);
                        popped.push(PoppedTask::Cancelled(t));
                        proof {
                            let new_after = popped@.subrange(popped0.len() as int, popped@.len() as int);
                            assert(new_after =~= new_before.push(PoppedTask::Cancelled(t)));
                            assert forall|k: int| 0 <= k < new_after.len() implies (#[trigger] checks[k]).token()
                                == popped_task(new_after[k]).cancel && (new_after[k] is Cancelled <==> checks[k].cancelled()) by {
                                if k < new_before.len() {
                                    assert(checks[k] == checks_before[k]);
                                    assert(new_after[k] == new_before[k]);
                                }
                            }
                            assert(new_after.drop_last() =~= new_before);
                            assert(started_priorities(new_after) == started_priorities(new_before));
                            assert(new_after.map_values(|x: PoppedTask<T>| popped_task(x)) =~= new_before.map_values(
                                |x: PoppedTask<T>| popped_task(x),
                            ).push(t));
                            assert(popped@.subrange(0, popped0.len() as int) =~= popped0);
                        }
                        continue;
                    },
                    PoppedTask::NoPermit(t) => {
                        assert(t == taken);
                        popped.push(PoppedTask::NoPermit(t));
                        proof {
                            let new_after = popped@.subrange(popped0.len() as int, popped@.len() as int);
                            assert(new_after =~= new_before.push(PoppedTask::NoPermit(t)));
                            assert forall|k: int| 0 <= k < new_after.len() implies (#[trigger] checks[k]).token()
                                == popped_task(new_after[k]).cancel && (new_after[k] is Cancelled <==> checks[k].cancelled()) by {
                                if k < new_before.len() {
                                    assert(checks[k] == checks_before[k]);
                                    assert(new_after[k] == new_before[k]);
                                }
                            }
                            assert(new_after.drop_last() =~= new_before);
                            assert(started_priorities(new_after) == started_priorities(new_before));
                            assert(new_after.map_values(|x: PoppedTask<T>| popped_task(x)) =~= new_before.map_values(
                                |x: PoppedTask<T>| popped_task(x),
                            ).push(t));
                            assert(popped@.subrange(0, popped0.len() as int) =~= popped0);
                            assert(new_after[new_after.len() - 1] is NoPermit);
                            assert(refused(new_after, priority));
                        }
                        break;
                    },
                    PoppedTask::Start { task: t, permit } => {
                        assert(t == taken);
                        popped.push(PoppedTask::Start { task: t, permit });
                        running.push(priority);
                        proof {
                            let new_after = popped@.subrange(popped0.len() as int, popped@.len() as int);
                            assert(new_after =~= new_before.push(PoppedTask::Start { task: t, permit }));
                            assert forall|k: int| 0 <= k < new_after.len() implies (#[trigger] checks[k]).token()
                                == popped_task(new_after[k]).cancel && (new_after[k] is Cancelled <==> checks[k].cancelled()) by {
                                if k < new_before.len() {
                                    assert(checks[k] == checks_before[k]);
                                    assert(new_after[k] == new_before[k]);
                                }
                            }
                            assert(new_after.drop_last() =~= new_before);
                            assert(started_priorities(new_after) == started_priorities(new_before).push(priority));
                            assert(new_after.map_values(|x: PoppedTask<T>| popped_task(x)) =~= new_before.map_values(
                                |x: PoppedTask<T>| popped_task(x),
                            ).push(t));
                            assert(popped@.subrange(0, popped0.len() as int) =~= popped0);
                            assert(running@ =~= running0 + started_priorities(new_after));
                            assert(running@.drop_last() =~= running_before);
                            assert forall|k: int| 0 <= k < started_priorities(new_after).len() implies
                                #[trigger] started_priorities(new_after)[k] == priority by {
                                if k < started_priorities(new_before).len() {
                                    assert(started_priorities(new_after)[k] == started_priorities(new_before)[k]);
                                }
                            }
                        }
                    },
                }
            },
        }
    }
    Ghost(checks)
}

/// Taking from the front twice is taking from the front once.
proof fn lemma_rest_of_trans<T>(a: Seq<QueuedTask<T>>, b: Seq<QueuedTask<T>>, c: Seq<QueuedTask<T>>)
    requires
        is_rest_of(a, b),
        is_rest_of(b, c),
    ensures
        is_rest_of(a, c),
{
    assert(c =~= a.skip(a.len() - c.len()));
}

/// A refusal recorded in either part is recorded in the whole.
proof fn lemma_refused_concat<T>(a: Seq<PoppedTask<T>>, b: Seq<PoppedTask<T>>, priority: TaskPriority)
    requires
        refused(a, priority) || refused(b, priority),
    ensures
        refused(a + b, priority),
{
    if refused(a, priority) {
        let j = choose|j: int|
            0 <= j < a.len() && (#[trigger] a[j]) is NoPermit && popped_task(a[j]).priority
                == priority;
        assert((a + b)[j] == a[j]);
    } else {
        let j = choose|j: int|
            0 <= j < b.len() && (#[trigger] b[j]) is NoPermit && popped_task(b[j]).priority
                == priority;
        assert((a + b)[a.len() + j] == b[j]);
    }
}

/// One round of the queue's worker. The allowed priority is that of the least urgent
/// running task, or, when none runs, the most urgent waiting one; each priority at
/// least as urgent as it, most urgent first, then starts its waiting tasks in arrival
/// order while any task waits and `can_start` allows one more. Each task taken is
/// classified by `classify_taken`: a task whose token is cancelled is dropped without
/// asking for a permit and the turn goes on; a live task starts with a permit, or, when
/// none is free, is dropped and ends its priority's turn, the only way a turn ends
/// while tasks wait and one more may start. Every task taken from the queue is
/// reported, in the order taken; the started ones are added to `running`. Each entry
/// follows a look at that task's own token taken when it left the queue: it is
/// `Cancelled` exactly when that look found the token cancelled.
pub fn schedule_round<T>(
    queues: &mut TripleQueue<T>,
    running: &mut Vec<TaskPriority>,
    max: usize,
    semaphore: &Arc<Semaphore>,
) -> (popped: Vec<PoppedTask<T>>)
    requires
        old(queues).wf(),
    ensures
        final(queues).wf(),
        forall|p: TaskPriority| is_rest_of(old(queues).queue(p), #[trigger] final(queues).queue(p)),
        forall|p: TaskPriority|
            !runnable(spec_allowed_priority(old(running)@, old(queues).next_priority()), p)
                ==> #[trigger] final(queues).queue(p) == old(queues).queue(p),
        popped@.map_values(|x: PoppedTask<T>| popped_task(x)) == removed(
            old(queues).queue(TaskPriority::High),
            final(queues).queue(TaskPriority::High),
        ) + removed(old(queues).queue(TaskPriority::Low), final(queues).queue(TaskPriority::Low))
            + removed(
            old(queues).queue(TaskPriority::Lowest),
            final(queues).queue(TaskPriority::Lowest),
        ),
        final(running)@ == old(running)@ + started_priorities(popped@),
        started_priorities(popped@).len() > 0 ==> final(running)@.len() <= max,
        forall|p: TaskPriority|
            count_priority(started_priorities(popped@), p) > 0 ==> #[trigger] count_priority(
                final(running)@,
                p,
            ) <= spec_priority_limit(p, max as int),
        forall|p: TaskPriority|
            runnable(spec_allowed_priority(old(running)@, old(queues).next_priority()), p) ==> (
            final(queues).spec_is_empty() || #[trigger] final(queues).queue(p).len() == 0
                || !spec_can_start(p, final(running)@, max as int) || refused(popped@, p)),
        within_limits(old(running)@, max as int) ==> within_limits(final(running)@, max as int),
        exists|checks: Seq<TokenCheck>| #[trigger] classified_by_checks(popped@, checks),
{
    let ghost queues0 = *queues;
    let ghost running0 = running@;
    let allowed = allowed_priority(running.as_slice(), queues);
    let to_run = priorities_to_run(allowed);
    let mut popped: Vec<PoppedTask<T>> = Vec::new();
    let mut i: usize = 0;
    let ghost mut all_checks: Seq<TokenCheck> = Seq::empty();
    proof {
        assert forall|p: TaskPriority| is_rest_of(queues0.queue(p), #[trigger] queues.queue(p)) by {
            assert(queues.queue(p).skip(0) =~= queues.queue(p));
        }
        assert(removed(queues0.queue(TaskPriority::High), queues.queue(TaskPriority::High)) =~= Seq::<QueuedTask<T>>::empty());
        assert(removed(queues0.queue(TaskPriority::Low), queues.queue(TaskPriority::Low)) =~= Seq::<QueuedTask<T>>::empty());
        assert(removed(queues0.queue(TaskPriority::Lowest), queues.queue(TaskPriority::Lowest)) =~= Seq::<QueuedTask<T>>::empty());
        assert(popped@.map_values(|x: PoppedTask<T>| popped_task(x)) =~= Seq::<QueuedTask<T>>::empty());
        assert(running@ =~= running0 + started_priorities(popped@));
    }
    while i < to_run.len()
        invariant
            allowed == spec_allowed_priority(running0, queues0.next_priority()),
            to_run@ == spec_priorities_to_run(allowed),
            i <= to_run@.len(),
            classified_by_checks(popped@, all_checks),
            queues.wf(),
            forall|p: TaskPriority| is_rest_of(queues0.queue(p), #[trigger] queues.queue(p)),
            forall|p: TaskPriority| rank(p) >= i ==> #[trigger] queues.queue(p) == queues0.queue(p),
            popped@.map_values(|x: PoppedTask<T>| popped_task(x)) == removed(
                queues0.queue(TaskPriority::High),
                queues.queue(TaskPriority::High),
            ) + removed(queues0.queue(TaskPriority::Low), queues.queue(TaskPriority::Low)) + removed(
                queues0.queue(TaskPriority::Lowest),
                queues.queue(TaskPriority::Lowest),
            ),
            running@ == running0 + started_priorities(popped@),
            started_priorities(popped@).len() > 0 ==> running@.len() <= max,
            forall|p: TaskPriority|
                count_priority(started_priorities(popped@), p) > 0 ==> #[trigger] count_priority(
                    running@,
                    p,
                ) <= spec_priority_limit(p, max as int),
            forall|p: TaskPriority|
                rank(p) < i ==> (queues.spec_is_empty() || #[trigger] queues.queue(p).len() == 0
                    || !spec_can_start(p, running@, max as int) || refused(popped@, p)),
        decreases to_run@.len() - i,
    {
        let priority = to_run[i];
        proof {
            lemma_priorities_to_run(allowed, priority);
        }
        assert(rank(priority) == i);
        let ghost queues_before = *queues;
        let ghost running_before = running@;
        let ghost popped_before = popped@;
        let checks = start_tasks_of_priority(queues, running, priority, max, semaphore, &mut popped);
        proof {
            let new = popped@.subrange(popped_before.len() as int, popped@.len() as int);
            assert(popped@ =~= popped_before + new);
            lemma_checks_concat(popped_before, all_checks, new, checks@);
            all_checks = all_checks + checks@;
            lemma_started_concat(popped_before, new);
            assert(running@ =~= running0 + started_priorities(popped@));
            // queues: what is left of each queue
            assert forall|p: TaskPriority| is_rest_of(queues0.queue(p), #[trigger] queues.queue(p)) by {
                if p == priority {
                    lemma_rest_of_trans(queues0.queue(p), queues_before.queue(p), queues.queue(p));
                }
            }
            // the popped tasks
            let m = |x: PoppedTask<T>| popped_task(x);
            assert(popped@.map_values(m) =~= popped_before.map_values(m) + new.map_values(m));
            assert(removed(queues_before.queue(priority), queues_before.queue(priority)) =~= Seq::<QueuedTask<T>>::empty());
            assert(removed(queues0.queue(priority), queues.queue(priority)) == new.map_values(m));
            assert forall|p: TaskPriority| rank(p) > i implies removed(queues0.queue(p), #[trigger] queues.queue(p)) =~= Seq::<QueuedTask<T>>::empty() by {}
            assert(popped@.map_values(m) =~= removed(queues0.queue(TaskPriority::High), queues.queue(TaskPriority::High))
                + removed(queues0.queue(TaskPriority::Low), queues.queue(TaskPriority::Low))
                + removed(queues0.queue(TaskPriority::Lowest), queues.queue(TaskPriority::Lowest)));
            // running limits
            if started_priorities(new).len() == 0 {
                assert(started_priorities(new) =~= Seq::<TaskPriority>::empty());
                assert(running@ =~= running_before);
                assert(started_priorities(popped@) =~= started_priorities(popped_before));
            }
            assert forall|p: TaskPriority|
                count_priority(started_priorities(popped@), p) > 0 implies #[trigger] count_priority(
                    running@,
                    p,
                ) <= spec_priority_limit(p, max as int) by {
                if started_priorities(new).len() > 0 && p != priority {
                    lemma_count_all_same(started_priorities(new), priority, p);
                    lemma_count_concat(running_before, started_priorities(new), p);
                    lemma_count_concat(started_priorities(popped_before), started_priorities(new), p);
                }
            }
            // what stopped each priority served so far
            assert forall|p: TaskPriority|
                rank(p) < i + 1 implies (queues.spec_is_empty() || #[trigger] queues.queue(p).len() == 0
                    || !spec_can_start(p, running@, max as int) || refused(popped@, p)) by {
                if p == priority {
                    if refused(new, p) {
                        lemma_refused_concat(popped_before, new, p);
                    }
                } else {
                    if !queues_before.spec_is_empty() && queues_before.queue(p).len() != 0 {
                        if !spec_can_start(p, running_before, max as int) {
                            lemma_cannot_start_stays(p, running_before, started_priorities(new), max as int);
                        } else {
                            lemma_refused_concat(popped_before, new, p);
                        }
                    }
                }
            }
        }
        i = i + 1;
    }
    proof {
        assert forall|p: TaskPriority|
            !runnable(allowed, p) implies #[trigger] queues.queue(p) == queues0.queue(p) by {
            lemma_priorities_to_run(allowed, p);
        }
        assert forall|p: TaskPriority| runnable(allowed, p) implies (queues.spec_is_empty()
            || #[trigger] queues.queue(p).len() == 0 || !spec_can_start(p, running@, max as int)
            || refused(popped@, p)) by {
            lemma_priorities_to_run(allowed, p);
        }
        if within_limits(running0, max as int) {
            let started = started_priorities(popped@);
            if started.len() == 0 {
                assert(running@ =~= running0);
            }
            assert forall|p: TaskPriority| #[trigger] count_priority(running@, p) <= spec_priority_limit(
                p,
                max as int,
            ) by {
                lemma_count_concat(running0, started, p);
                assert(count_priority(running0, p) <= spec_priority_limit(p, max as int));
            }
        }
        assert(classified_by_checks(popped@, all_checks));
    }
    popped
}

/// Empties the queue for shutdown: every waiting task, the `High` ones first, then
/// the `Low` ones, then the `Lowest` ones, each in arrival order.
pub fn drain_in_priority_order<T>(queues: &mut TripleQueue<T>) -> (tasks: Vec<QueuedTask<T>>)
    ensures
        tasks@ == old(queues).queue(TaskPriority::High) + old(queues).queue(TaskPriority::Low)
            + old(queues).queue(TaskPriority::Lowest),
        final(queues).spec_is_empty(),
        old(queues).wf() ==> final(queues).wf(),
{
    let ghost queues0 = *queues;
    let mut tasks: Vec<QueuedTask<T>> = Vec::new();
    let order = [TaskPriority::High, TaskPriority::Low, TaskPriority::Lowest];
    let mut i: usize = 0;
    while i < 3
        invariant
            i <= 3,
            order@ == seq![TaskPriority::High, TaskPriority::Low, TaskPriority::Lowest],
            forall|p: TaskPriority| rank(p) < i ==> #[trigger] queues.queue(p).len() == 0,
            forall|p: TaskPriority| rank(p) >= i ==> #[trigger] queues.queue(p) == queues0.queue(p),
            queues0.wf() ==> queues.wf(),
            i == 0 ==> tasks@ == Seq::<QueuedTask<T>>::empty(),
            i == 1 ==> tasks@ == queues0.queue(TaskPriority::High),
            i == 2 ==> tasks@ == queues0.queue(TaskPriority::High) + queues0.queue(TaskPriority::Low),
            i == 3 ==> tasks@ == queues0.queue(TaskPriority::High) + queues0.queue(TaskPriority::Low)
                + queues0.queue(TaskPriority::Lowest),
        decreases 3 - i,
    {
        let priority = order[i];
        assert(rank(priority) == i);
        let ghost tasks_before = tasks@;
        let ghost q = queues.queue(priority);
        loop
            invariant
                rank(priority) == i,
                queues.queue(priority) == q.skip(q.len() - queues.queue(priority).len()),
                queues.queue(priority).len() <= q.len(),
                tasks@ == tasks_before + q.take(q.len() - queues.queue(priority).len()),
                forall|p: TaskPriority| rank(p) < i ==> #[trigger] queues.queue(p).len() == 0,
                forall|p: TaskPriority| rank(p) > i ==> #[trigger] queues.queue(p) == queues0.queue(p),
                queues0.wf() ==> queues.wf(),
            ensures
                queues.queue(priority).len() == 0,
                tasks@ == tasks_before + q,
            decreases queues.queue(priority).len(),
        {
            let ghost before = queues.queue(priority);
            match queues.pop(priority) {
                Some(task) => {
                    tasks.push(task);
                    proof {
                        assert(before[0] == q[q.len() - before.len()]);
                        assert(q.take(q.len() - queues.queue(priority).len()) =~= q.take(
                            q.len() - before.len(),
                        ).push(task));
                        assert(queues.queue(priority) =~= q.skip(q.len() - queues.queue(priority).len()));
                        assert forall|p: TaskPriority| rank(p) > i implies #[trigger] queues.queue(p)
                            == queues0.queue(p) by {
                            assert(p != priority);
                        }
                        assert forall|p: TaskPriority| rank(p) < i implies #[trigger] queues.queue(p).len()
                            == 0 by {
                            assert(p != priority);
                        }
                    }
                },
                None => {
                    assert(q.take(q.len() as int) =~= q);
                    break;
                },
            }
        }
        i = i + 1;
    }
    tasks
}

/// Every priority may run at least one task and at most `max` when `max` is at least
/// one, and a more urgent priority may never run fewer tasks than a less urgent one.
/// `High` may use all `max`; `Low` gets the largest number whose double fits in `max`
/// and `Lowest` the largest whose fourfold fits, each at least one.
pub proof fn lemma_priority_limits(max: int)
    requires
        max >= 1,
    ensures
        forall|p: TaskPriority|
            1 <= #[trigger] spec_priority_limit(p, max) <= max,
        spec_priority_limit(TaskPriority::High, max) >= spec_priority_limit(TaskPriority::Low, max),
        spec_priority_limit(TaskPriority::Low, max) >= spec_priority_limit(TaskPriority::Lowest, max),
        spec_priority_limit(TaskPriority::High, max) == max,
        max >= 2 ==> 2 * spec_priority_limit(TaskPriority::Low, max) <= max < 2
            * spec_priority_limit(TaskPriority::Low, max) + 2,
        max < 2 ==> spec_priority_limit(TaskPriority::Low, max) == 1,
        max >= 4 ==> 4 * spec_priority_limit(TaskPriority::Lowest, max) <= max < 4
            * spec_priority_limit(TaskPriority::Lowest, max) + 4,
        max < 4 ==> spec_priority_limit(TaskPriority::Lowest, max) == 1,
{
}

/// The least urgent running priority is one of the running priorities, and no running
/// priority is less urgent.
pub proof fn lemma_least_urgent(running: Seq<TaskPriority>)
    requires
        running.len() > 0,
    ensures
        running.contains(least_urgent(running)),
        forall|i: int| 0 <= i < running.len() ==> rank(#[trigger] running[i]) <= rank(least_urgent(running)),
    decreases running.len(),
{
    if running.len() > 1 {
        let pre = running.drop_last();
        lemma_least_urgent(pre);
        assert forall|i: int| 0 <= i < running.len() implies rank(#[trigger] running[i]) <= rank(
            least_urgent(running),
        ) by {
            if i < running.len() - 1 {
                assert(running[i] == pre[i]);
            }
        }
        if least_urgent(running) == least_urgent(pre) {
            let k = choose|k: int| 0 <= k < pre.len() && pre[k] == least_urgent(pre);
            assert(running[k] == pre[k]);
        } else {
            assert(running[running.len() - 1] == running.last());
        }
    } else {
        assert(running[0] == least_urgent(running));
    }
}

/// While a task of some priority runs, no task less urgent than every running task may
/// start; when nothing runs, every priority down to the most urgent waiting one may.
pub proof fn lemma_gating(running: Seq<TaskPriority>, next_waiting: Option<TaskPriority>, p: TaskPriority)
    ensures
        running.len() > 0 ==> (runnable(spec_allowed_priority(running, next_waiting), p) <==> exists|i: int|
            0 <= i < running.len() && rank(p) <= rank(#[trigger] running[i])),
        running.len() == 0 ==> spec_allowed_priority(running, next_waiting) == next_waiting,
{
    if running.len() > 0 {
        lemma_least_urgent(running);
        if runnable(spec_allowed_priority(running, next_waiting), p) {
            let k = choose|k: int| 0 <= k < running.len() && running[k] == least_urgent(running);
            assert(rank(p) <= rank(running[k]));
        }
    }
}

} // verus!
