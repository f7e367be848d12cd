//! The concurrency-safe face of the message store: any number of readers
//! may proceed together, a write excludes all readers and other writers for
//! its duration, and the store invariant is part of the lock itself — so a
//! reader can only ever borrow a complete, well-formed store value, never a
//! half-written one.
use vstd::prelude::*;
use vstd::rwlock::RwLock;

use crate::message::CapturedMessage;
use crate::message::MessageId;
use crate::storage_task::storage_step;
use crate::storage_task::StorageEvent;
use crate::storage_task::StorageStatus;
use crate::store::has_id;
use crate::store::MessageStore;

verus! {

/// The message store behind a reader/writer lock whose invariant is the
/// store's own well-formedness: every value that leaves the lock — whether
/// borrowed by a reader or taken by a writer — satisfies it, and every
/// value a writer puts back is proved to satisfy it again.
pub struct SharedStore {
    lock: RwLock<MessageStore, spec_fn(MessageStore) -> bool>,
}

impl SharedStore {
    /// The lock guards exactly the store invariant.
    pub closed spec fn wf(&self) -> bool {
        forall|s: MessageStore| self.lock.inv(s) == s.wf()
    }

    /// A shared container around an empty store.
    pub fn new() -> (r: SharedStore)
        ensures
            r.wf(),
    {
        let store = MessageStore::new();
        let lock = RwLock::new(store, Ghost(|s: MessageStore| s.wf()));
        SharedStore { lock }
    }

    /// One step of the storage loop, performed under the write lock: the
    /// mutation completes before the lock is released, so no reader ever
    /// observes it half done. Reports the loop status, and whether the step
    /// was applied — it is not when the store has grown past any further
    /// insertion.
    pub fn step(&self, retention_period: u64, event: StorageEvent) -> (r: (StorageStatus, bool))
        requires
            self.wf(),
            event matches StorageEvent::EvictionTick(_) ==> retention_period > 0,
        ensures
            r.1 ==> r.0 == (match event {
                StorageEvent::Received(_) => StorageStatus::Continue,
                StorageEvent::Lagged(_) => StorageStatus::Continue,
                StorageEvent::QueueClosed => StorageStatus::Stopped,
                StorageEvent::EvictionTick(_) => StorageStatus::Continue,
                StorageEvent::CancelRequested => StorageStatus::Stopped,
            }),
            !r.1 ==> r.0 == StorageStatus::Continue,
    {
        let (mut store, handle) = self.lock.acquire_write();
        if store.len() == usize::MAX {
            handle.release_write(store);
            return (StorageStatus::Continue, false);
        }
        let status = storage_step(&mut store, retention_period, event);
        handle.release_write(store);
        (status, true)
    }

    /// Read the number of stored messages. Taken under a read lock that
    /// excludes no other reader.
    pub fn len(&self) -> (r: usize)
        requires
            self.wf(),
    {
        let handle = self.lock.acquire_read();
        let n = handle.borrow().len();
        handle.release_read();
        n
    }

    /// Look a message up by id. The borrowed store satisfies the invariant,
    /// so the answer is a complete entry of one consistent store value:
    /// present with the asked-for id, or absent from that whole value.
    pub fn get(&self, id: MessageId) -> (r: Option<CapturedMessage>)
        requires
            self.wf(),
        ensures
            r matches Some(m) ==> m.id == id,
    {
        let handle = self.lock.acquire_read();
        let found = handle.borrow().get(id);
        handle.release_read();
        found
    }

    /// A consistent snapshot of every stored message, for listing: taken
    /// from one store value under one read lock, so entries of different
    /// writes never mix. Unique ids among them come with the invariant.
    pub fn snapshot(&self) -> (r: Vec<CapturedMessage>)
        requires
            self.wf(),
        ensures
            forall|i: int, j: int| 0 <= i < j < r@.len() ==> r@[i].id != r@[j].id,
            forall|i: int| 0 <= i < r@.len() ==> has_id(r@, #[trigger] r@[i].id),
    {
        let handle = self.lock.acquire_read();
        let store = handle.borrow();
        let n = store.len();
        let mut out: Vec<CapturedMessage> = Vec::new();
        let mut i: usize = 0;
        while i < n
            invariant
                i <= n,
                out@ == store@.take(i as int),
                n == store@.len(),
                store.wf(),
            decreases n - i,
        {
            let m = store.get_at(i);
            out.push(m);
            proof {
                assert(out@ =~= store@.take(i as int + 1));
            }
            i = i + 1;
        }
        proof {
            assert(out@ =~= store@);
            assert forall|k: int| 0 <= k < out@.len() implies has_id(out@, #[trigger] out@[k].id) by {
                assert(0 <= k < out@.len() && out@[k].id == out@[k].id);
            }
        }
        handle.release_read();
        out
    }
}

} // verus!
