//! Fan-out broadcast queue: an ordered, bounded buffer with one producer and
//! independent subscribers. A subscriber that falls behind by more than the
//! queue's capacity misses the oldest unconsumed messages and is told how
//! many it missed; it never blocks the producer or the other subscribers.
use vstd::prelude::*;

use crate::message::CapturedMessage;

verus! {

/// What a subscriber's receive reports: the next message, a lag notification
/// carrying the number of skipped messages, the terminal signal of a closed
/// queue, or nothing available yet (the caller would suspend and retry).
#[derive(PartialEq, Eq, Debug)]
pub enum RecvOutcome {
    Delivered(CapturedMessage),
    Lagged(usize),
    Closed,
    Pending,
}

/// The error of a send with no remaining subscribers: a permanent condition
/// the producer treats as fatal-to-log, not a crash.
#[derive(PartialEq, Eq, Debug)]
pub enum SendError {
    NoSubscribers,
}

/// An independent cursor into the broadcast queue. Receiving through one
/// subscriber never moves another's cursor.
pub struct Subscriber {
    cursor: usize,
}

/// Single-producer, multi-subscriber bounded broadcast queue. The buffer
/// holds the most recent messages up to the capacity fixed at construction;
/// the full send history is carried as a ghost sequence so that contracts
/// can speak of send order.
pub struct BroadcastQueue {
    capacity: usize,
    buf: Vec<CapturedMessage>,
    sent: usize,
    closed: bool,
    subscribers: usize,
    hist: Ghost<Seq<CapturedMessage>>,
}

impl Subscriber {
    /// The absolute index (into the send history) of the next message this
    /// subscriber will observe.
    pub closed spec fn cursor_spec(self) -> int {
        self.cursor as int
    }

    /// A subscriber cursor never runs ahead of the send history.
    pub open spec fn valid(self, q: BroadcastQueue) -> bool {
        0 <= self.cursor_spec() <= q.total_sent()
    }
}

impl BroadcastQueue {
    /// Every message ever sent, in send order.
    pub closed spec fn history(self) -> Seq<CapturedMessage> {
        self.hist@
    }

    /// Number of messages ever sent.
    pub closed spec fn total_sent(self) -> int {
        self.sent as int
    }

    /// The capacity fixed at construction.
    pub closed spec fn capacity_spec(self) -> int {
        self.capacity as int
    }

    /// Whether the queue was closed (a one-shot, monotonic condition).
    pub closed spec fn is_closed_spec(self) -> bool {
        self.closed
    }

    /// Number of live subscriber handles.
    pub closed spec fn subscriber_count(self) -> int {
        self.subscribers as int
    }

    /// The absolute index of the oldest message still buffered: everything
    /// more than `capacity` messages behind the head has been overwritten.
    pub open spec fn first_available(self) -> int {
        if self.total_sent() >= self.capacity_spec() {
            self.total_sent() - self.capacity_spec()
        } else {
            0
        }
    }

    /// Internal coherence: the buffer holds exactly the most recent
    /// `min(sent, capacity)` messages of the history, oldest first.
    pub closed spec fn wf(self) -> bool {
        &&& self.capacity >= 1
        &&& self.hist@.len() == self.sent as int
        &&& self.buf@.len() == if self.sent as int >= self.capacity as int {
            self.capacity as int
        } else {
            self.sent as int
        }
        &&& self.buf@ == self.hist@.subrange(self.sent as int - self.buf@.len(), self.sent as int)
    }

    /// A fresh queue of the given capacity, with no subscribers and an empty
    /// history. A capacity of zero is meaningless for a ring buffer and is
    /// excluded.
    pub fn new(capacity: usize) -> (r: BroadcastQueue)
        requires
            capacity >= 1,
        ensures
            r.wf(),
            r.history() == Seq::<CapturedMessage>::empty(),
            r.capacity_spec() == capacity,
            r.subscriber_count() == 0,
            !r.is_closed_spec(),
    {
        let q = BroadcastQueue {
            capacity,
            buf: Vec::new(),
            sent: 0,
            closed: false,
            subscribers: 0,
            hist: Ghost(Seq::empty()),
        };
        proof {
            assert(q.buf@ =~= q.hist@.subrange(0, 0));
        }
        q
    }

    /// A new, independent cursor starting at "now": a new subscriber does
    /// not see history.
    pub fn subscribe(&mut self) -> (s: Subscriber)
        requires
            old(self).wf(),
            old(self).subscriber_count() < usize::MAX,
        ensures
            final(self).wf(),
            final(self).history() == old(self).history(),
            final(self).capacity_spec() == old(self).capacity_spec(),
            final(self).is_closed_spec() == old(self).is_closed_spec(),
            final(self).subscriber_count() == old(self).subscriber_count() + 1,
            s.cursor_spec() == old(self).total_sent(),
            s.valid(*final(self)),
    {
        self.subscribers = self.subscribers + 1;
        Subscriber { cursor: self.sent }
    }

    /// Drop one subscriber handle.
    pub fn unsubscribe(&mut self)
        requires
            old(self).wf(),
            old(self).subscriber_count() > 0,
        ensures
            final(self).wf(),
            final(self).history() == old(self).history(),
            final(self).capacity_spec() == old(self).capacity_spec(),
            final(self).is_closed_spec() == old(self).is_closed_spec(),
            final(self).subscriber_count() == old(self).subscriber_count() - 1,
    {
        self.subscribers = self.subscribers - 1;
    }

    /// Close the queue: subscribers that catch up observe the terminal
    /// signal. One-shot and monotonic.
    pub fn close(&mut self)
        requires
            old(self).wf(),
        ensures
            final(self).wf(),
            final(self).history() == old(self).history(),
            final(self).capacity_spec() == old(self).capacity_spec(),
            final(self).subscriber_count() == old(self).subscriber_count(),
            final(self).is_closed_spec(),
    {
        self.closed = true;
    }

    /// Send a message. The producer never blocks and never fails because of
    /// a slow consumer: the send appends to the history unconditionally and,
    /// when the buffer is full, overwrites its oldest entry. It fails exactly
    /// when no subscriber handle is live.
    pub fn send(&mut self, m: CapturedMessage) -> (r: Result<(), SendError>)
        requires
            old(self).wf(),
            old(self).total_sent() < usize::MAX,
        ensures
            final(self).wf(),
            final(self).capacity_spec() == old(self).capacity_spec(),
            final(self).is_closed_spec() == old(self).is_closed_spec(),
            final(self).subscriber_count() == old(self).subscriber_count(),
            old(self).subscriber_count() == 0 ==> r == Result::<(), SendError>::Err(
                SendError::NoSubscribers,
            ) && final(self).history() == old(self).history(),
            old(self).subscriber_count() > 0 ==> r == Result::<(), SendError>::Ok(())
                && final(self).history() == old(self).history().push(m),
    {
        if self.subscribers == 0 {
            return Err(SendError::NoSubscribers);
        }
        let ghost prior = *self;
        self.buf.push(m);
        if self.buf.len() > self.capacity {
            self.buf.remove(0);
        }
        self.sent = self.sent + 1;
        proof {
            self.hist@ = prior.hist@.push(m);
        }
        proof {
            let h = self.hist@;
            let blen = self.buf@.len() as int;
            assert(self.buf@ =~= h.subrange(self.sent as int - blen, self.sent as int)) by {
                if prior.buf@.len() < prior.capacity {
                    assert(self.buf@ =~= prior.buf@.push(m));
                } else {
                    assert(self.buf@ =~= prior.buf@.push(m).skip(1));
                }
            }
        }
        Ok(())
    }

    /// What a receive at cursor `c` reports: missed messages first, then the
    /// next buffered message, then — only once the subscriber has caught up —
    /// the closed signal or nothing.
    pub open spec fn recv_outcome_spec(self, c: int) -> RecvOutcome {
        if c < self.first_available() {
            RecvOutcome::Lagged((self.first_available() - c) as usize)
        } else if c < self.total_sent() {
            RecvOutcome::Delivered(self.history()[c])
        } else if self.is_closed_spec() {
            RecvOutcome::Closed
        } else {
            RecvOutcome::Pending
        }
    }

    /// Where the cursor stands after a receive at cursor `c`: a lagged
    /// subscriber resumes at the oldest still-buffered message; a delivery
    /// advances by one; otherwise the cursor is unchanged.
    pub open spec fn recv_cursor_after(self, c: int) -> int {
        if c < self.first_available() {
            self.first_available()
        } else if c < self.total_sent() {
            c + 1
        } else {
            c
        }
    }

    /// Receive through one subscriber. Reads the queue only, so it cannot
    /// affect the producer or any other subscriber.
    pub fn recv(&self, sub: &mut Subscriber) -> (r: RecvOutcome)
        requires
            self.wf(),
            old(sub).valid(*self),
        ensures
            final(sub).valid(*self),
            r == self.recv_outcome_spec(old(sub).cursor_spec()),
            final(sub).cursor_spec() == self.recv_cursor_after(old(sub).cursor_spec()),
    {
        let oldest = self.sent - self.buf.len();
        if sub.cursor < oldest {
            let missed = oldest - sub.cursor;
            sub.cursor = oldest;
            RecvOutcome::Lagged(missed)
        } else if sub.cursor < self.sent {
            let idx = sub.cursor - oldest;
            let m = self.buf[idx].clone();
            proof {
                assert(self.buf@[idx as int] == self.history()[sub.cursor as int]);
            }
            sub.cursor = sub.cursor + 1;
            RecvOutcome::Delivered(m)
        } else if self.closed {
            RecvOutcome::Closed
        } else {
            RecvOutcome::Pending
        }
    }
}

/// A subscriber that stopped consuming while the producer ran more than
/// `capacity` messages ahead is told, on its next receive, exactly how many
/// messages it missed — the overrun, never less — and resumes at the oldest
/// still-buffered message, whose delivery follows on the receive after that.
/// It is never stuck and never observes a partial message.
pub proof fn lemma_lagging_subscriber_bounded_loss(q: BroadcastQueue, c: int)
    requires
        q.wf(),
        0 <= c <= q.total_sent(),
        q.total_sent() - c > q.capacity_spec(),
    ensures
        q.recv_outcome_spec(c) == RecvOutcome::Lagged(
            ((q.total_sent() - c) - q.capacity_spec()) as usize,
        ),
        q.recv_cursor_after(c) == q.first_available(),
        q.recv_outcome_spec(q.recv_cursor_after(c)) == RecvOutcome::Delivered(
            q.history()[q.first_available()],
        ),
{
    assert(q.first_available() == q.total_sent() - q.capacity_spec());
}

/// Subscribers are independent: whatever the other's cursor, a subscriber
/// with an available message is delivered the message at its own cursor, so
/// each observes the send history in order and a slow subscriber's lag never
/// affects a fast one's delivery.
pub proof fn lemma_subscribers_independent(q: BroadcastQueue, ca: int, cb: int)
    requires
        q.wf(),
        q.first_available() <= ca < q.total_sent(),
        q.first_available() <= cb < q.total_sent(),
    ensures
        q.recv_outcome_spec(ca) == RecvOutcome::Delivered(q.history()[ca]),
        q.recv_outcome_spec(cb) == RecvOutcome::Delivered(q.history()[cb]),
        q.recv_cursor_after(ca) == ca + 1,
        q.recv_cursor_after(cb) == cb + 1,
{
}

} // verus!
