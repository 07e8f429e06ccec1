//! Fan-out of inserted events to subscribers: a bounded shared history
//! with one independent cursor per subscriber. A publisher never blocks
//! on a slow subscriber; a subscriber that falls more than the capacity
//! behind gets an explicit lag signal and is moved forward to the oldest
//! event still retained.

use vstd::prelude::*;

use crate::models::{Event, EventV};

verus! {

/// Outcome of polling a subscription cursor.
#[derive(Debug, PartialEq, Eq)]
pub enum RecvOutcome {
    /// The next event, in publish order.
    Received(Event),
    /// The subscriber fell behind: this many events were dropped for it,
    /// and its cursor now sits at the oldest event still retained.
    Lagged(u64),
    /// Nothing new has been published yet.
    Pending,
}

/// Spec-level image of a `RecvOutcome`.
pub enum RecvOutcomeV {
    Received(EventV),
    Lagged(int),
    Pending,
}

/// View of a poll outcome.
pub open spec fn recv_outcome_view(r: RecvOutcome) -> RecvOutcomeV {
    match r {
        RecvOutcome::Received(e) => RecvOutcomeV::Received(e@),
        RecvOutcome::Lagged(n) => RecvOutcomeV::Lagged(n as int),
        RecvOutcome::Pending => RecvOutcomeV::Pending,
    }
}

/// The shared broadcast state: the last `capacity` published events,
/// together with the (ghost) full history of everything ever published.
pub struct Broadcaster {
    capacity: usize,
    buffer: Vec<Event>,
    head: u64,
    history: Ghost<Seq<EventV>>,
}

/// An independent read cursor into a `Broadcaster`'s stream. It holds
/// no slot in the shared state, so simply dropping it cancels the
/// subscription: no further delivery is attempted and nothing is left
/// behind to clean up.
pub struct Subscriber {
    cursor: u64,
}

impl Subscriber {
    /// Position of the next event this subscriber would read.
    pub closed spec fn cursor(&self) -> int {
        self.cursor as int
    }
}

impl Broadcaster {
    /// Bound on how far a subscriber may fall behind before it lags.
    pub closed spec fn capacity(&self) -> int {
        self.capacity as int
    }

    /// Views of every event ever published, in publish order.
    pub closed spec fn log(&self) -> Seq<EventV> {
        self.history@
    }

    /// Position one past the most recently published event.
    pub open spec fn next_seq(&self) -> int {
        self.log().len() as int
    }

    /// Position of the oldest event still retained.
    pub closed spec fn oldest_retained(&self) -> int {
        self.head as int
    }

    /// Internal consistency: the buffer holds exactly the most recent
    /// events of the history, never more than `capacity` of them.
    pub closed spec fn wf(&self) -> bool {
        &&& self.capacity() >= 1
        &&& self.log().len() <= u64::MAX
        &&& self.oldest_retained() + self.buffer@.len() == self.next_seq()
        &&& self.buffer@.len() == if self.next_seq() <= self.capacity() {
            self.next_seq()
        } else {
            self.capacity()
        }
        &&& forall|i: int|
            0 <= i < self.buffer@.len() ==> (#[trigger] self.buffer@[i])@ == self.log()[
                self.oldest_retained() + i
            ]
    }

    /// A fresh channel with nothing published.
    pub fn new(capacity: usize) -> (b: Self)
        requires
            capacity >= 1,
        ensures
            b.wf(),
            b.capacity() == capacity,
            b.log() == Seq::<EventV>::empty(),
    {
        Broadcaster { capacity, buffer: Vec::new(), head: 0, history: Ghost(Seq::empty()) }
    }

    /// Publishes `e` to every subscriber: the history grows by exactly
    /// `e`, and the publisher never waits for a consumer.
    pub fn publish(&mut self, e: &Event)
        requires
            old(self).wf(),
            old(self).next_seq() < u64::MAX,
        ensures
            final(self).wf(),
            final(self).capacity() == old(self).capacity(),
            final(self).log() == old(self).log().push(e@),
    {
        if self.buffer.len() == self.capacity {
            let _oldest = self.buffer.remove(0);
            self.head = self.head + 1;
        }
        self.buffer.push(e.clone());
        proof {
            self.history@ = self.history@.push(e@);
        }
    }

    /// How many events have ever been published.
    pub fn published_count(&self) -> (n: u64)
        requires
            self.wf(),
        ensures
            n == self.next_seq(),
    {
        self.head + (self.buffer.len() as u64)
    }

    /// A new cursor positioned after everything already published: it
    /// will observe exactly the events published from now on.
    pub fn subscribe(&self) -> (s: Subscriber)
        requires
            self.wf(),
        ensures
            s.cursor() == self.next_seq(),
    {
        Subscriber { cursor: self.head + (self.buffer.len() as u64) }
    }
}

/// The decision a poll takes, as a function of the shared state and the
/// subscriber's cursor: the outcome and the new cursor position.
pub open spec fn spec_recv(b: Broadcaster, cur: int) -> (RecvOutcomeV, int) {
    if cur >= b.next_seq() {
        (RecvOutcomeV::Pending, cur)
    } else if cur < b.oldest_retained() {
        (RecvOutcomeV::Lagged(b.oldest_retained() - cur), b.oldest_retained())
    } else {
        (RecvOutcomeV::Received(b.log()[cur]), cur + 1)
    }
}

impl Broadcaster {
    /// Polls once on behalf of `sub`, without blocking: exactly the
    /// decision of `spec_recv`.
    pub fn try_recv(&self, sub: &mut Subscriber) -> (r: RecvOutcome)
        requires
            self.wf(),
        ensures
            recv_outcome_view(r) == spec_recv(*self, old(sub).cursor()).0,
            final(sub).cursor() == spec_recv(*self, old(sub).cursor()).1,
    {
        let next = self.head + (self.buffer.len() as u64);
        if sub.cursor >= next {
            RecvOutcome::Pending
        } else if sub.cursor < self.head {
            let missed = self.head - sub.cursor;
            sub.cursor = self.head;
            RecvOutcome::Lagged(missed)
        } else {
            let idx = (sub.cursor - self.head) as usize;
            let e = self.buffer[idx].clone();
            sub.cursor = sub.cursor + 1;
            RecvOutcome::Received(e)
        }
    }
}

/// A subscription started after some publishes and polled before it
/// falls more than the capacity behind reads the stream in publish
/// order and without gaps: the poll yields exactly the event at the
/// cursor. In particular a subscriber whose cursor was taken after
/// event `e1` (so `e1` sits below the cursor) next observes the first
/// event published after the subscription, never `e1`.
pub proof fn lemma_recv_in_order(b: Broadcaster, cur: int)
    requires
        b.wf(),
        0 <= cur < b.next_seq(),
        b.next_seq() - cur <= b.capacity(),
    ensures
        spec_recv(b, cur).0 == RecvOutcomeV::Received(b.log()[cur]),
        spec_recv(b, cur).1 == cur + 1,
{
}

/// A received event always sits exactly at the subscriber's cursor, and
/// a poll never moves a cursor backwards: events published before the
/// cursor position at subscription time are never delivered.
pub proof fn lemma_no_earlier_event(b: Broadcaster, cur: int)
    requires
        b.wf(),
        0 <= cur,
    ensures
        spec_recv(b, cur).1 >= cur,
        forall|e: EventV|
            spec_recv(b, cur).0 == RecvOutcomeV::Received(e) ==> e == b.log()[cur],
{
}

/// If more events than the capacity were published while a subscriber
/// was paused, its next poll surfaces a lag signal naming how many
/// events it missed, instead of replaying them or blocking the
/// publisher; the cursor moves to the oldest event still retained.
pub proof fn lemma_lag_signal(b: Broadcaster, cur: int)
    requires
        b.wf(),
        0 <= cur,
        b.next_seq() - cur > b.capacity(),
    ensures
        spec_recv(b, cur).0 == RecvOutcomeV::Lagged(b.oldest_retained() - cur),
        spec_recv(b, cur).1 == b.oldest_retained(),
        b.oldest_retained() > cur,
        b.oldest_retained() == b.next_seq() - b.capacity(),
{
}

} // verus!
