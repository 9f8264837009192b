//! Three first-in first-out queues, one per task priority.

use crate::task::{rank, QueuedTask, TaskPriority};
use std::collections::VecDeque;
use vstd::prelude::*;

verus! {

/// Waiting tasks, kept in arrival order within each priority.
pub struct TripleQueue<T> {
    high: VecDeque<QueuedTask<T>>,
    low: VecDeque<QueuedTask<T>>,
    lowest: VecDeque<QueuedTask<T>>,
}

/// The priority that is served first among the non-empty queues, if any.
pub open spec fn first_nonempty<T>(
    high: Seq<QueuedTask<T>>,
    low: Seq<QueuedTask<T>>,
    lowest: Seq<QueuedTask<T>>,
) -> Option<TaskPriority> {
    if high.len() > 0 {
        Some(TaskPriority::High)
    } else if low.len() > 0 {
        Some(TaskPriority::Low)
    } else if lowest.len() > 0 {
        Some(TaskPriority::Lowest)
    } else {
        None
    }
}

impl<T> TripleQueue<T> {
    /// The tasks waiting with the given priority, oldest first.
    pub closed spec fn queue(&self, priority: TaskPriority) -> Seq<QueuedTask<T>> {
        match priority {
            TaskPriority::High => self.high@,
            TaskPriority::Low => self.low@,
            TaskPriority::Lowest => self.lowest@,
        }
    }

    /// Every task waits in the queue of its own priority.
    pub open spec fn wf(&self) -> bool {
        forall|p: TaskPriority, i: int|
            0 <= i < self.queue(p).len() ==> (#[trigger] self.queue(p)[i]).priority == p
    }

    /// No task waits at all.
    pub open spec fn spec_is_empty(&self) -> bool {
        &&& self.queue(TaskPriority::High).len() == 0
        &&& self.queue(TaskPriority::Low).len() == 0
        &&& self.queue(TaskPriority::Lowest).len() == 0
    }

    /// The number of waiting tasks over all priorities.
    pub open spec fn total_len(&self) -> nat {
        self.queue(TaskPriority::High).len() + self.queue(TaskPriority::Low).len() + self.queue(
            TaskPriority::Lowest,
        ).len()
    }

    /// The most urgent priority that has a waiting task.
    pub open spec fn next_priority(&self) -> Option<TaskPriority> {
        first_nonempty(
            self.queue(TaskPriority::High),
            self.queue(TaskPriority::Low),
            self.queue(TaskPriority::Lowest),
        )
    }

    pub fn is_empty(&self) -> (empty: bool)
        ensures
            empty == self.spec_is_empty(),
    {
        self.high.len() == 0 && self.low.len() == 0 && self.lowest.len() == 0
    }

    /// Appends the task to the back of the queue of its priority.
    pub fn push(&mut self, task: QueuedTask<T>)
        ensures
            final(self).queue(task.priority) == old(self).queue(task.priority).push(task),
            forall|p: TaskPriority| p != task.priority ==> final(self).queue(p) == old(self).queue(p),
            old(self).wf() ==> final(self).wf(),
    {
        let ghost pushed = task;
        match task.priority {
            TaskPriority::High => self.high.push_back(task),
            TaskPriority::Low => self.low.push_back(task),
            TaskPriority::Lowest => self.lowest.push_back(task),
        }
        proof {
            if old(self).wf() {
                assert forall|p: TaskPriority, i: int|
                    0 <= i < self.queue(p).len() implies (#[trigger] self.queue(p)[i]).priority
                    == p by {
                    if p == pushed.priority && i == old(self).queue(p).len() {
                        assert(self.queue(p)[i] == pushed);
                    } else {
                        assert(self.queue(p)[i] == old(self).queue(p)[i]);
                    }
                }
            }
        }
    }

    pub fn peek_next_priority(&self) -> (next: Option<TaskPriority>)
        ensures
            next == self.next_priority(),
    {
        if self.high.len() != 0 {
            Some(TaskPriority::High)
        } else if self.low.len() != 0 {
            Some(TaskPriority::Low)
        } else if self.lowest.len() != 0 {
            Some(TaskPriority::Lowest)
        } else {
            None
        }
    }

    /// Takes the oldest task of the given priority, if there is one.
    pub fn pop(&mut self, priority: TaskPriority) -> (task: Option<QueuedTask<T>>)
        ensures
            match task {
                Some(t) => {
                    &&& old(self).queue(priority).len() > 0
                    &&& t == old(self).queue(priority)[0]
                    &&& final(self).queue(priority) == old(self).queue(priority).drop_first()
                },
                None => {
                    &&& old(self).queue(priority).len() == 0
                    &&& final(self).queue(priority) == old(self).queue(priority)
                },
            },
            forall|p: TaskPriority| p != priority ==> final(self).queue(p) == old(self).queue(p),
            old(self).wf() ==> final(self).wf(),
    {
        let popped = match priority {
            TaskPriority::High => self.high.pop_front(),
            TaskPriority::Low => self.low.pop_front(),
            TaskPriority::Lowest => self.lowest.pop_front(),
        };
        proof {
            if old(self).wf() {
                assert forall|p: TaskPriority, i: int|
                    0 <= i < self.queue(p).len() implies (#[trigger] self.queue(p)[i]).priority
                    == p by {
                    if p == priority {
                        assert(self.queue(p)[i] == old(self).queue(p)[i + 1]);
                    } else {
                        assert(self.queue(p)[i] == old(self).queue(p)[i]);
                    }
                }
            }
        }
        popped
    }

    pub fn len_h(&self) -> (n: usize)
        ensures
            n == self.queue(TaskPriority::High).len(),
    {
        self.high.len()
    }

    pub fn len_l(&self) -> (n: usize)
        ensures
            n == self.queue(TaskPriority::Low).len(),
    {
        self.low.len()
    }

    pub fn len_ll(&self) -> (n: usize)
        ensures
            n == self.queue(TaskPriority::Lowest).len(),
    {
        self.lowest.len()
    }
}

impl<T> Default for TripleQueue<T> {
    fn default() -> (queues: Self)
        ensures
            queues.spec_is_empty(),
            queues.wf(),
    {
        TripleQueue { high: VecDeque::new(), low: VecDeque::new(), lowest: VecDeque::new() }
    }
}

/// The most urgent waiting priority has a waiting task and every more urgent queue is
/// empty; there is none exactly when nothing waits.
pub proof fn lemma_next_priority_is_most_urgent<T>(queues: TripleQueue<T>)
    ensures
        queues.next_priority() is None <==> queues.spec_is_empty(),
        queues.next_priority() matches Some(p) ==> queues.queue(p).len() > 0 && forall|q: TaskPriority|
            rank(q) < rank(p) ==> #[trigger] queues.queue(q).len() == 0,
{
}

/// Tasks of one priority leave in the order they came: after pushing a task, the next
/// pop of its priority gives the oldest waiting task, or the pushed one if none waited.
pub proof fn lemma_first_in_first_out<T>(
    before: TripleQueue<T>,
    after_push: TripleQueue<T>,
    task: QueuedTask<T>,
)
    requires
        after_push.queue(task.priority) == before.queue(task.priority).push(task),
    ensures
        after_push.queue(task.priority)[0] == if before.queue(task.priority).len() == 0 {
            task
        } else {
            before.queue(task.priority)[0]
        },
        before.queue(task.priority).len() > 0 ==> after_push.queue(task.priority).drop_first()
            == before.queue(task.priority).drop_first().push(task),
{
    if before.queue(task.priority).len() > 0 {
        assert(after_push.queue(task.priority).drop_first() =~= before.queue(task.priority).drop_first().push(task));
    }
}

} // verus!
