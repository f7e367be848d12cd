//! The storage/retention component: the single writer of the message store.
//! Its control loop — await the next broadcast message or the next eviction
//! tick, until the graceful signal or the end of the queue — is run at the
//! application edge; each observation is handed to the step function here,
//! which performs the store mutation and decides whether the loop goes on.
use vstd::prelude::*;

use crate::message::CapturedMessage;
use crate::store::MessageStore;
use crate::store::has_id;
use crate::store::keep_pred;
use crate::store::spec_insert;

verus! {

/// What the storage loop observes at a suspension point.
pub enum StorageEvent {
    /// The subscription delivered the next captured message.
    Received(CapturedMessage),
    /// The subscription fell behind and skipped this many messages: logged
    /// and skipped, never fatal.
    Lagged(usize),
    /// The broadcast queue closed: the loop ends as if cancelled.
    QueueClosed,
    /// The periodic eviction tick fired at this time (seconds). Ticks exist
    /// only when retention is enabled.
    EvictionTick(u64),
    /// The graceful cancellation signal was observed.
    CancelRequested,
}

/// Whether the storage loop keeps running after a step.
#[derive(Clone, Copy, PartialEq, Eq, Structural, Debug)]
pub enum StorageStatus {
    Continue,
    Stopped,
}

/// Spacing of eviction ticks for a retention window (seconds): a fraction
/// of the window — half, at least one second — so staleness stays tightly
/// bounded; no ticking at all when retention is disabled (zero).
pub fn eviction_interval(retention_period: u64) -> (r: Option<u64>)
    ensures
        retention_period == 0 <==> r is None,
        retention_period > 0 ==> r == Some(
            if retention_period == 1 {
                1u64
            } else {
                retention_period / 2
            },
        ),
        retention_period > 0 ==> 1 <= r.unwrap() <= retention_period,
    {
    if retention_period == 0 {
        None
    } else {
        let half = retention_period / 2;
        if half == 0 {
            Some(1)
        } else {
            Some(half)
        }
    }
}

/// One step of the storage loop: insert a delivered message under its id,
/// evict on a tick when retention is enabled, skip a lag notification, and
/// stop on queue closure or cancellation. In-flight mutations complete
/// within the step, so the store is never left half-written.
pub fn storage_step(store: &mut MessageStore, retention_period: u64, event: StorageEvent) -> (r:
    StorageStatus)
    requires
        old(store).wf(),
        old(store)@.len() < usize::MAX,
        event matches StorageEvent::EvictionTick(_) ==> retention_period > 0,
    ensures
        final(store).wf(),
        match event {
            StorageEvent::Received(m) => r == StorageStatus::Continue && final(store)@
                == spec_insert(old(store)@, m),
            StorageEvent::Lagged(_) => r == StorageStatus::Continue && final(store)@ == old(
                store,
            )@,
            StorageEvent::QueueClosed => r == StorageStatus::Stopped && final(store)@ == old(
                store,
            )@,
            StorageEvent::EvictionTick(now) => r == StorageStatus::Continue && final(store)@ == old(
                store,
            )@.filter(keep_pred(now, retention_period)),
            StorageEvent::CancelRequested => r == StorageStatus::Stopped && final(store)@ == old(
                store,
            )@,
        },
    {
    match event {
        StorageEvent::Received(m) => {
            // a same-id collision cannot happen while the id invariant
            // holds; the insert reports it and overwrites, keeping the
            // store coherent
            let _fresh = store.insert(m);
            StorageStatus::Continue
        },
        StorageEvent::Lagged(_skipped) => StorageStatus::Continue,
        StorageEvent::QueueClosed => StorageStatus::Stopped,
        StorageEvent::EvictionTick(now) => {
            store.evict(now, retention_period);
            StorageStatus::Continue
        },
        StorageEvent::CancelRequested => StorageStatus::Stopped,
    }
}

/// A delivered message with a fresh id is present after its step, and
/// nothing else is lost: the step appends it.
pub proof fn lemma_step_stores_fresh_message(s: Seq<CapturedMessage>, m: CapturedMessage)
    requires
        !has_id(s, m.id),
    ensures
        spec_insert(s, m) == s.push(m),
        spec_insert(s, m).len() == s.len() + 1,
        spec_insert(s, m)[s.len() as int] == m,
{
}

} // verus!
