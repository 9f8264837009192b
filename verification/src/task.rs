//! Priorities and queued tasks of the background task queue.

use std::sync::Arc;
use tokio::sync::{OwnedSemaphorePermit, Semaphore};
use tokio_util::sync::CancellationToken;
use vstd::prelude::*;

verus! {

/// `tokio_util`'s cancellation token, carried opaquely.
#[verifier::external_type_specification]
#[verifier::external_body]
pub struct ExCancellationToken(CancellationToken);

/// `tokio`'s semaphore that bounds the running tasks, carried opaquely.
#[verifier::external_type_specification]
#[verifier::external_body]
pub struct ExSemaphore(Semaphore);

/// A permit of that semaphore, held by a running task, carried opaquely.
#[verifier::external_type_specification]
#[verifier::external_body]
pub struct ExOwnedSemaphorePermit(OwnedSemaphorePermit);

/// How urgently a task should run. `High` is the most urgent; in the derived
/// order `High < Low < Lowest`.
#[derive(Debug, Clone, Copy, PartialEq, Eq, Structural, PartialOrd, Ord, Hash)]
pub enum TaskPriority {
    High,
    Low,
    Lowest,
}

/// The position of a priority in the derived order: `High` is 0, `Lowest` is 2.
pub open spec fn rank(priority: TaskPriority) -> nat {
    match priority {
        TaskPriority::High => 0,
        TaskPriority::Low => 1,
        TaskPriority::Lowest => 2,
    }
}

/// A task waiting in the queue, with its priority and the token that withdraws it.
pub struct QueuedTask<T> {
    pub task: T,
    pub priority: TaskPriority,
    pub cancel: CancellationToken,
}

impl<T> QueuedTask<T> {
    pub fn new(task: T, priority: TaskPriority, cancel: CancellationToken) -> (queued: Self)
        ensures
            queued.task == task,
            queued.priority == priority,
            queued.cancel == cancel,
    {
        QueuedTask { task, priority, cancel }
    }
}

/// Queued tasks compare by priority alone.
impl<T> PartialEq for QueuedTask<T> {
    fn eq(&self, other: &Self) -> (same: bool) {
        self.priority == other.priority
    }
}

impl<T> vstd::std_specs::cmp::PartialEqSpecImpl for QueuedTask<T> {
    open spec fn obeys_eq_spec() -> bool {
        true
    }

    open spec fn eq_spec(&self, other: &Self) -> bool {
        self.priority == other.priority
    }
}

impl<T> Eq for QueuedTask<T> {}

/// One look at a cancellation token: the token, and whether it was found cancelled.
/// Its fields are private to this module, and only `token_is_cancelled` makes one, so
/// a `TokenCheck` that says "not cancelled" is the answer of a real look at its token.
pub struct TokenCheck {
    token: CancellationToken,
    cancelled: bool,
}

impl TokenCheck {
    /// The token that was looked at.
    pub closed spec fn token(&self) -> CancellationToken {
        self.token
    }

    /// Whether it was found cancelled.
    pub closed spec fn cancelled(&self) -> bool {
        self.cancelled
    }

    pub fn is_cancelled(&self) -> (cancelled: bool)
        ensures
            cancelled == self.cancelled(),
    {
        self.cancelled
    }

    /// Gives the token back.
    pub fn into_token(self) -> (token: CancellationToken)
        ensures
            token == self.token(),
    {
        self.token
    }
}

/// Calls `CancellationToken::is_cancelled` on the token and keeps the answer with the
/// token. The check holds the very token it was given. Whether a token is cancelled
/// depends on what other holders of it have done by the time of the call, so nothing
/// is stated of the answer itself: it is what the call returned.
#[verifier::external_body]
pub(crate) fn token_is_cancelled(token: CancellationToken) -> (check: TokenCheck)
    ensures
        check.token() == token,
{
    let cancelled = token.is_cancelled();
    TokenCheck { token, cancelled }
}

/// Calls `Semaphore::try_acquire_owned` on a clone of the shared semaphore and keeps
/// the permit, if one was granted. Whether one is granted depends on the permits
/// that other tasks hold at the moment of the call, so nothing is stated of it.
#[verifier::external_body]
pub(crate) fn try_acquire_permit(semaphore: &Arc<Semaphore>) -> Option<OwnedSemaphorePermit> {
    semaphore.clone().try_acquire_owned().ok()
}

} // verus!
