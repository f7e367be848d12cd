//! The message store: a mapping from message id to captured message,
//! mutated only by the storage component, with a retention/eviction policy.
use vstd::prelude::*;
use vstd::seq_lib::*;

use crate::message::CapturedMessage;
use crate::message::MessageId;

verus! {

/// No two entries share a message id.
pub open spec fn unique_ids(s: Seq<CapturedMessage>) -> bool {
    forall|i: int, j: int| 0 <= i < j < s.len() ==> s[i].id != s[j].id
}

/// Some entry carries the given id.
pub open spec fn has_id(s: Seq<CapturedMessage>, id: MessageId) -> bool {
    exists|i: int| 0 <= i < s.len() && s[i].id == id
}

/// One insertion at the model level: a fresh id is appended; a colliding id
/// overwrites the entry that carries it (a condition the store's invariant
/// rules out, reported by the executable insert).
pub open spec fn spec_insert(s: Seq<CapturedMessage>, m: CapturedMessage) -> Seq<CapturedMessage> {
    if has_id(s, m.id) {
        s.map(|j: int, x: CapturedMessage| if x.id == m.id { m } else { x })
    } else {
        s.push(m)
    }
}

/// The model after inserting each message of `msgs` in order.
pub open spec fn after_inserts(s: Seq<CapturedMessage>, msgs: Seq<CapturedMessage>) -> Seq<
    CapturedMessage,
>
    decreases msgs.len(),
{
    if msgs.len() == 0 {
        s
    } else {
        after_inserts(spec_insert(s, msgs[0]), msgs.skip(1))
    }
}

/// An entry survives an eviction pass at time `now` exactly when it is no
/// older than the retention window.
pub open spec fn keep_pred(now: u64, retention: u64) -> spec_fn(CapturedMessage) -> bool {
    |m: CapturedMessage| m.timestamp + retention >= now
}

/// In-memory store of captured messages, keyed by their unique id.
/// Entries are kept in insertion order.
pub struct MessageStore {
    entries: Vec<CapturedMessage>,
}

impl View for MessageStore {
    type V = Seq<CapturedMessage>;

    closed spec fn view(&self) -> Seq<CapturedMessage> {
        self.entries@
    }
}

impl MessageStore {
    /// Invariant: no two live entries share an id.
    pub open spec fn wf(&self) -> bool {
        unique_ids(self@)
    }

    /// An empty store.
    pub fn new() -> (r: MessageStore)
        ensures
            r@ == Seq::<CapturedMessage>::empty(),
            r.wf(),
    {
        MessageStore { entries: Vec::new() }
    }

    /// Number of live entries.
    pub fn len(&self) -> (r: usize)
        ensures
            r == self@.len(),
    {
        self.entries.len()
    }

    /// Insert a message under its id. A fresh id is appended; a same-id
    /// collision (a logic error under the store invariant) overwrites the
    /// colliding entry. Returns whether the id was fresh.
    pub fn insert(&mut self, m: CapturedMessage) -> (fresh: bool)
        requires
            old(self).wf(),
            old(self)@.len() < usize::MAX,
        ensures
            final(self).wf(),
            fresh == !has_id(old(self)@, m.id),
            final(self)@ == spec_insert(old(self)@, m),
    {
        let ghost prior = self@;
        let mut i: usize = 0;
        while i < self.entries.len()
            invariant
                self@ == prior,
                prior == old(self)@,
                unique_ids(prior),
                i <= prior.len(),
                forall|k: int| 0 <= k < i ==> prior[k].id != m.id,
            decreases prior.len() - i,
        {
            if self.entries[i].id == m.id {
                self.entries.set(i, m);
                proof {
                    assert(has_id(prior, m.id));
                    let mapped = prior.map(
                        |j: int, x: CapturedMessage| if x.id == m.id { m } else { x },
                    );
                    assert forall|k: int| 0 <= k < prior.len() implies self@[k] == #[trigger] mapped[k] by {
                        if k != i && prior[k].id == m.id {
                            assert(prior[k].id == prior[i as int].id);
                            assert(false);
                        }
                    }
                    assert(self@ =~= mapped);
                    assert forall|a: int, b: int| 0 <= a < b < self@.len() implies self@[a].id
                        != self@[b].id by {
                        assert(self@[a].id == prior[a].id && self@[b].id == prior[b].id);
                    }
                }
                return false;
            }
            i = i + 1;
        }
        proof {
            assert(!has_id(prior, m.id)) by {
                if has_id(prior, m.id) {
                    let w = choose|w: int| 0 <= w < prior.len() && prior[w].id == m.id;
                    assert(prior[w].id != m.id);
                }
            }
        }
        self.entries.push(m);
        proof {
            assert forall|a: int, b: int| 0 <= a < b < self@.len() implies self@[a].id
                != self@[b].id by {
                if b < prior.len() {
                    assert(prior[a].id != prior[b].id);
                } else {
                    assert(self@[b] == m && prior[a].id != m.id);
                }
            }
        }
        true
    }

    /// Look a message up by id.
    pub fn get(&self, id: MessageId) -> (r: Option<CapturedMessage>)
        requires
            self.wf(),
        ensures
            match r {
                Some(m) => has_id(self@, id) && m.id == id && self@.contains(m),
                None => !has_id(self@, id),
            },
    {
        let mut i: usize = 0;
        while i < self.entries.len()
            invariant
                i <= self@.len(),
                forall|k: int| 0 <= k < i ==> self@[k].id != id,
            decreases self@.len() - i,
        {
            if self.entries[i].id == id {
                return Some(self.entries[i].clone());
            }
            i = i + 1;
        }
        proof {
            if has_id(self@, id) {
                let w = choose|w: int| 0 <= w < self@.len() && self@[w].id == id;
                assert(self@[w].id != id);
            }
        }
        None
    }

    /// The entry at a position, in insertion order.
    pub fn get_at(&self, i: usize) -> (r: CapturedMessage)
        requires
            i < self@.len(),
        ensures
            r == self@[i as int],
    {
        self.entries[i].clone()
    }

    /// Insert each message of `msgs` in order.
    pub fn insert_all(&mut self, msgs: Vec<CapturedMessage>) -> (collisions: usize)
        requires
            old(self).wf(),
            old(self)@.len() + msgs@.len() < usize::MAX,
        ensures
            final(self).wf(),
            final(self)@ == after_inserts(old(self)@, msgs@),
            collisions == 0 ==> forall|k: int|
                0 <= k < msgs@.len() ==> !has_id(after_inserts(old(self)@, msgs@.take(k)), msgs@[k].id),
    {
        let ghost initial = self@;
        let ghost all = msgs@;
        let mut collisions: usize = 0;
        let mut i: usize = 0;
        while i < msgs.len()
            invariant
                i <= all.len(),
                msgs@ == all,
                self.wf(),
                old(self).wf(),
                initial == old(self)@,
                initial.len() + all.len() < usize::MAX,
                self@.len() <= initial.len() + i,
                self@ == after_inserts(initial, all.take(i as int)),
                collisions <= i,
                collisions == 0 ==> forall|k: int|
                    0 <= k < i ==> !has_id(after_inserts(initial, all.take(k)), all[k].id),
            decreases all.len() - i,
        {
            let ghost before = self@;
            let m = msgs[i].clone();
            let fresh = self.insert(m);
            if !fresh {
                collisions = collisions + 1;
            }
            proof {
                lemma_after_inserts_step(initial, all, i as int);
                assert(all.take(i + 1).len() == i + 1);
                assert(self@ == after_inserts(initial, all.take(i + 1)));
                assert(self@.len() <= before.len() + 1);
            }
            i = i + 1;
        }
        proof {
            assert(all.take(all.len() as int) =~= all);
        }
        collisions
    }

    /// Remove every entry strictly older than the retention window, keeping
    /// the rest in order. With the window anchored at `now`, an entry whose
    /// timestamp lies at least `retention` before `now` is evicted; every
    /// newer entry is retained. Retention zero means eviction is disabled
    /// and must not reach this pass.
    pub fn evict(&mut self, now: u64, retention: u64)
        requires
            old(self).wf(),
            retention > 0,
        ensures
            final(self).wf(),
            final(self)@ == old(self)@.filter(keep_pred(now, retention)),
            forall|k: int| 0 <= k < final(self)@.len() ==> final(self)@[k].timestamp + retention >= now,
            forall|k: int|
                0 <= k < old(self)@.len() && old(self)@[k].timestamp + retention >= now
                    ==> final(self)@.contains(old(self)@[k]),
    {
        let ghost prior = self@;
        let ghost pred = keep_pred(now, retention);
        let mut kept: Vec<CapturedMessage> = Vec::new();
        let mut i: usize = 0;
        while i < self.entries.len()
            invariant
                self@ == prior,
                i <= prior.len(),
                kept@ == prior.take(i as int).filter(pred),
                pred == keep_pred(now, retention),
            decreases prior.len() - i,
        {
            let m = self.entries[i].clone();
            let keep = if retention >= now {
                true
            } else {
                m.timestamp >= now - retention
            };
            proof {
                assert(keep == pred(prior[i as int]));
                lemma_filter_take_step(prior, pred, i as int);
            }
            if keep {
                kept.push(m);
            }
            i = i + 1;
        }
        proof {
            assert(prior.take(prior.len() as int) =~= prior);
        }
        self.entries = kept;
        proof {
            lemma_filter_preserves_unique(prior, pred);
            broadcast use Seq::lemma_filter_pred;
            assert forall|k: int|
                0 <= k < prior.len() && prior[k].timestamp + retention >= now implies self@.contains(
                prior[k],
            ) by {
                prior.lemma_filter_contains(pred, k);
            }
        }
    }
}

/// Unfolding `after_inserts` one message at a time.
proof fn lemma_after_inserts_step(s: Seq<CapturedMessage>, msgs: Seq<CapturedMessage>, i: int)
    requires
        0 <= i < msgs.len(),
    ensures
        after_inserts(s, msgs.take(i + 1)) == spec_insert(after_inserts(s, msgs.take(i)), msgs[i]),
    decreases i,
{
    let t1 = msgs.take(i + 1);
    let t0 = msgs.take(i);
    if i == 0 {
        assert(t1.len() == 1);
        assert(t1[0] == msgs[0]);
        assert(after_inserts(s, t1) == after_inserts(spec_insert(s, t1[0]), t1.skip(1)));
        assert(t1.skip(1).len() == 0);
        assert(after_inserts(spec_insert(s, t1[0]), t1.skip(1)) == spec_insert(s, t1[0]));
        assert(t0 =~= Seq::<CapturedMessage>::empty());
        assert(after_inserts(s, t0) == s);
    } else {
        assert(t1.len() == i + 1);
        assert(after_inserts(s, t1) == after_inserts(spec_insert(s, t1[0]), t1.skip(1)));
        assert(t1[0] == msgs[0]);
        assert(t1.skip(1) =~= msgs.skip(1).take(i));
        assert(t0.len() == i);
        assert(after_inserts(s, t0) == after_inserts(spec_insert(s, t0[0]), t0.skip(1)));
        assert(t0[0] == msgs[0]);
        assert(t0.skip(1) =~= msgs.skip(1).take(i - 1));
        lemma_after_inserts_step(spec_insert(s, msgs[0]), msgs.skip(1), i - 1);
        assert(msgs.skip(1)[i - 1] == msgs[i]);
    }
}

/// Filtering a prefix one element further appends that element when the
/// predicate holds of it.
proof fn lemma_filter_take_step(
    s: Seq<CapturedMessage>,
    pred: spec_fn(CapturedMessage) -> bool,
    i: int,
)
    requires
        0 <= i < s.len(),
    ensures
        s.take(i + 1).filter(pred) == if pred(s[i]) {
            s.take(i).filter(pred).push(s[i])
        } else {
            s.take(i).filter(pred)
        },
{
    reveal(Seq::filter);
    let t1 = s.take(i + 1);
    assert(t1.len() == i + 1);
    assert(t1.last() == s[i]);
    assert(t1.drop_last() =~= s.take(i));
}

/// A filtered store keeps ids unique.
proof fn lemma_filter_preserves_unique(s: Seq<CapturedMessage>, pred: spec_fn(CapturedMessage) -> bool)
    requires
        unique_ids(s),
    ensures
        unique_ids(s.filter(pred)),
    decreases s.len(),
{
    reveal(Seq::filter);
    if s.len() == 0 {
    } else {
        let prefix = s.drop_last();
        assert(unique_ids(prefix)) by {
            assert forall|a: int, b: int| 0 <= a < b < prefix.len() implies prefix[a].id
                != prefix[b].id by {
                assert(s[a].id != s[b].id);
            }
        }
        lemma_filter_preserves_unique(prefix, pred);
        let f = prefix.filter(pred);
        if pred(s.last()) {
            assert(s.filter(pred) == f.push(s.last()));
            assert forall|a: int, b: int| 0 <= a < b < f.len() + 1 implies s.filter(pred)[a].id
                != s.filter(pred)[b].id by {
                broadcast use Seq::lemma_filter_contains, Seq::lemma_filter_pred;
                if b < f.len() {
                    assert(unique_ids(f));
                } else {
                    let x = f[a];
                    assert(prefix.contains(x)) by {
                        lemma_filter_is_subset(prefix, pred, a);
                    }
                    let w = choose|w: int| 0 <= w < prefix.len() && prefix[w] == x;
                    assert(s[w].id != s.last().id) by {
                        assert(s[w] == prefix[w]);
                        assert(0 <= w < s.len() - 1);
                        assert(s.last() == s[s.len() - 1]);
                    }
                }
            }
        } else {
            assert(s.filter(pred) == f);
        }
    }
}

/// Every element of a filtered sequence comes from the sequence it was
/// filtered from.
proof fn lemma_filter_is_subset(
    s: Seq<CapturedMessage>,
    pred: spec_fn(CapturedMessage) -> bool,
    i: int,
)
    requires
        0 <= i < s.filter(pred).len(),
    ensures
        s.contains(s.filter(pred)[i]),
    decreases s.len(),
{
    reveal(Seq::filter);
    if s.len() == 0 {
    } else {
        let prefix = s.drop_last();
        let f = prefix.filter(pred);
        if pred(s.last()) {
            if i < f.len() {
                lemma_filter_is_subset(prefix, pred, i);
                let w = choose|w: int| 0 <= w < prefix.len() && prefix[w] == f[i];
                assert(s[w] == s.filter(pred)[i]);
            } else {
                assert(s.filter(pred)[i] == s.last());
                assert(s[s.len() - 1] == s.last());
            }
        } else {
            lemma_filter_is_subset(prefix, pred, i);
            let w = choose|w: int| 0 <= w < prefix.len() && prefix[w] == f[i];
            assert(s[w] == s.filter(pred)[i]);
        }
    }
}

/// Inserting messages whose ids are pairwise distinct and absent from the
/// store loses none and duplicates none: the store becomes exactly the old
/// entries followed by the new messages, in order.
pub proof fn lemma_unique_inserts_append(s: Seq<CapturedMessage>, msgs: Seq<CapturedMessage>)
    requires
        unique_ids(s),
        unique_ids(msgs),
        forall|k: int| 0 <= k < msgs.len() ==> !has_id(s, #[trigger] msgs[k].id),
    ensures
        after_inserts(s, msgs) == s + msgs,
    decreases msgs.len(),
{
    if msgs.len() == 0 {
        assert(s + msgs =~= s);
    } else {
        let m = msgs[0];
        assert(!has_id(s, m.id));
        let s2 = s.push(m);
        assert(spec_insert(s, m) == s2);
        assert(unique_ids(s2)) by {
            assert forall|a: int, b: int| 0 <= a < b < s2.len() implies s2[a].id != s2[b].id by {
                if b < s.len() {
                } else {
                    assert(s2[b] == m);
                    if s[a].id == m.id {
                        assert(has_id(s, m.id));
                    }
                }
            }
        }
        let rest = msgs.skip(1);
        assert(unique_ids(rest)) by {
            assert forall|a: int, b: int| 0 <= a < b < rest.len() implies rest[a].id
                != rest[b].id by {
                assert(msgs[a + 1].id != msgs[b + 1].id);
            }
        }
        assert forall|k: int| 0 <= k < rest.len() implies !has_id(s2, #[trigger] rest[k].id) by {
            assert(rest[k] == msgs[k + 1]);
            assert(!has_id(s, msgs[k + 1].id));
            assert(msgs[0].id != msgs[k + 1].id);
            if has_id(s2, rest[k].id) {
                let w = choose|w: int| 0 <= w < s2.len() && s2[w].id == rest[k].id;
                if w < s.len() {
                    assert(has_id(s, rest[k].id));
                } else {
                    assert(s2[w] == m);
                }
            }
        }
        lemma_unique_inserts_append(s2, rest);
        assert(after_inserts(s, msgs) == after_inserts(s2, rest));
        assert(s2 + rest =~= s + msgs);
    }
}

/// A store filled from empty with messages of pairwise distinct ids holds
/// exactly those messages: no loss and no duplication.
pub proof fn lemma_no_loss_no_duplication(msgs: Seq<CapturedMessage>)
    requires
        unique_ids(msgs),
    ensures
        after_inserts(Seq::<CapturedMessage>::empty(), msgs) == msgs,
        after_inserts(Seq::<CapturedMessage>::empty(), msgs).len() == msgs.len(),
{
    lemma_unique_inserts_append(Seq::<CapturedMessage>::empty(), msgs);
    assert(Seq::<CapturedMessage>::empty() + msgs =~= msgs);
}

} // verus!
