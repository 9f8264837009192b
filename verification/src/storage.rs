//! The decisions behind the screen's image stores (serve from the cache, collect a
//! finished load, keep waiting, or start a load) and behind its pending requests.

use vstd::prelude::*;

verus! {

/// What polling the pending load of an item gave.
#[derive(Clone, Copy, Debug, PartialEq, Eq, Structural)]
pub enum LoadPoll {
    /// The load delivered the item.
    Ready,
    /// The load reported an error.
    Failed,
    /// The load was dropped without an answer.
    Closed,
    /// The load has not answered yet.
    Pending,
}

/// What the store does for a request.
#[derive(Clone, Copy, Debug, PartialEq, Eq, Structural)]
pub enum StorageDecision {
    /// Hand out the cached item.
    UseCached,
    /// Drop the load, put the delivered item in the cache and hand it out.
    StoreAndUse,
    /// Drop the load; nothing to hand out.
    Forget,
    /// Keep the load; nothing to hand out yet.
    Wait,
    /// Start a load and remember it; nothing to hand out yet.
    StartLoad,
}

/// The decision for a request: serve a cached item; otherwise poll the pending load,
/// if any; with none pending, start one.
pub open spec fn spec_storage_decision(cached: bool, poll: Option<LoadPoll>) -> StorageDecision {
    if cached {
        StorageDecision::UseCached
    } else {
        match poll {
            None => StorageDecision::StartLoad,
            Some(LoadPoll::Ready) => StorageDecision::StoreAndUse,
            Some(LoadPoll::Failed) => StorageDecision::Forget,
            Some(LoadPoll::Closed) => StorageDecision::Forget,
            Some(LoadPoll::Pending) => StorageDecision::Wait,
        }
    }
}

/// Decides a request for an item: a cached item is served; otherwise a pending load is
/// polled (`poll` is what polling gave, `None` when no load is pending); with no load
/// pending, one is started. Only the cached or just delivered item is handed out.
pub fn storage_decision(cached: bool, poll: Option<LoadPoll>) -> (decision: StorageDecision)
    ensures
        decision == spec_storage_decision(cached, poll),
        cached ==> decision == StorageDecision::UseCached,
        hands_out(decision) <==> (cached || poll == Some(LoadPoll::Ready)),
        decision == StorageDecision::StartLoad <==> (!cached && poll is None),
        decision == StorageDecision::Wait <==> (!cached && poll == Some(LoadPoll::Pending)),
        decision == StorageDecision::Forget <==> (!cached && (poll == Some(LoadPoll::Failed)
            || poll == Some(LoadPoll::Closed))),
{
    if cached {
        return StorageDecision::UseCached;
    }
    match poll {
        Some(LoadPoll::Ready) => StorageDecision::StoreAndUse,
        Some(LoadPoll::Failed) | Some(LoadPoll::Closed) => StorageDecision::Forget,
        Some(LoadPoll::Pending) => StorageDecision::Wait,
        None => StorageDecision::StartLoad,
    }
}

/// The request hands out an item.
pub open spec fn hands_out(decision: StorageDecision) -> bool {
    decision == StorageDecision::UseCached || decision == StorageDecision::StoreAndUse
}

/// The keys that may be cached after a request for `id`: a delivered item joins the
/// cache (which may drop other entries to make room).
pub open spec fn cached_after<K>(cached: Set<K>, id: K, decision: StorageDecision) -> Set<K> {
    if decision == StorageDecision::StoreAndUse {
        cached.insert(id)
    } else {
        cached
    }
}

/// The keys with a pending load after a request for `id`: a finished load (delivered,
/// failed or dropped) leaves, a started one joins.
pub open spec fn pending_after<K>(pending: Set<K>, id: K, decision: StorageDecision) -> Set<K> {
    match decision {
        StorageDecision::StoreAndUse => pending.remove(id),
        StorageDecision::Forget => pending.remove(id),
        StorageDecision::StartLoad => pending.insert(id),
        _ => pending,
    }
}

/// No key is both cached and loading.
pub open spec fn keys_apart<K>(cached: Set<K>, pending: Set<K>) -> bool {
    forall|k: K| !(#[trigger] cached.contains(k) && pending.contains(k))
}

/// A store whose cache and pending loads share no key starts a load for `id` exactly
/// when `id` is neither cached nor loading, serves a cached `id` from the cache, hands
/// an item out exactly when it was cached or its load just delivered it (so only when
/// it is cached, before or by this request), drops a load that has finished, and
/// afterwards still has no key both cached and loading, whatever entries the cache
/// dropped.
pub proof fn lemma_store_request<K>(
    cached: Set<K>,
    pending: Set<K>,
    id: K,
    poll: LoadPoll,
    kept: Set<K>,
)
    requires
        keys_apart(cached, pending),
        kept.subset_of(
            cached_after(
                cached,
                id,
                spec_storage_decision(
                    cached.contains(id),
                    if pending.contains(id) {
                        Some(poll)
                    } else {
                        None
                    },
                ),
            ),
        ),
    ensures
        ({
            let decision = spec_storage_decision(
                cached.contains(id),
                if pending.contains(id) {
                    Some(poll)
                } else {
                    None
                },
            );
            &&& (decision == StorageDecision::StartLoad) <==> (!cached.contains(id)
                && !pending.contains(id))
            &&& cached.contains(id) ==> decision == StorageDecision::UseCached
            &&& hands_out(decision) <==> (cached.contains(id) || (pending.contains(id) && poll
                == LoadPoll::Ready))
            &&& hands_out(decision) ==> cached_after(cached, id, decision).contains(id)
            &&& (pending.contains(id) && poll != LoadPoll::Pending) ==> !pending_after(
                pending,
                id,
                decision,
            ).contains(id)
            &&& keys_apart(kept, pending_after(pending, id, decision))
        }),
{
    let decision = spec_storage_decision(
        cached.contains(id),
        if pending.contains(id) {
            Some(poll)
        } else {
            None
        },
    );
    assert forall|k: K| !(#[trigger] kept.contains(k) && pending_after(pending, id, decision).contains(k)) by {
        if kept.contains(k) {
            assert(cached_after(cached, id, decision).contains(k));
        }
    }
}

/// What polling the receiver of a requested thumbnail or file list gave.
#[derive(Clone, Copy, Debug, PartialEq, Eq, Structural)]
pub enum ReceiverPoll {
    /// The awaited event arrived with a result.
    ReadyOk,
    /// The awaited event arrived with an error.
    ReadyErr,
    /// Some other event arrived; it is discarded.
    OtherEvent,
    /// Nothing arrived yet.
    Empty,
    /// The sender is gone.
    Closed,
}

/// What the screen does with a pending request after polling it.
pub struct ReceiverDecision {
    /// Keep the delivered result.
    pub keep_result: bool,
    /// Forget the receiver: the request is done.
    pub drop_receiver: bool,
}

/// A pending request is done once its awaited event arrived, whose result is kept only
/// when it is not an error; otherwise the request keeps waiting.
pub fn pending_receiver_decision(poll: ReceiverPoll) -> (decision: ReceiverDecision)
    ensures
        decision.keep_result == (poll == ReceiverPoll::ReadyOk),
        decision.drop_receiver == (poll == ReceiverPoll::ReadyOk || poll == ReceiverPoll::ReadyErr),
{
    match poll {
        ReceiverPoll::ReadyOk => ReceiverDecision { keep_result: true, drop_receiver: true },
        ReceiverPoll::ReadyErr => ReceiverDecision { keep_result: false, drop_receiver: true },
        _ => ReceiverDecision { keep_result: false, drop_receiver: false },
    }
}

} // verus!
