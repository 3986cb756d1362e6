//! Round events and the bounded stream that hands them to subscribers.

use vstd::prelude::*;
use crate::common::error::Error;

verus! {

/// A transition of a contract's round that observers are told about.
#[derive(Clone, Copy, Debug, PartialEq, Eq, Structural)]
pub enum Event {
    /// A quorum of commitments is in; the reveal phase is open.
    CommitmentsReceived,
    /// The round was abandoned for the given reason: `Timeout` if its phase
    /// ran out, `InvalidArgument` if its reveals did not agree on one header
    /// for the block that the round decides on.
    RoundFailed(Error),
}

/// A subscriber's queue after one more event: the event goes to the end, and
/// a queue that already holds `capacity` events loses its oldest.
pub open spec fn enqueue(pending: Seq<Event>, capacity: nat, event: Event) -> Seq<Event> {
    if pending.len() < capacity {
        pending.push(event)
    } else {
        pending.skip(1).push(event)
    }
}

/// All subscribers' queues after `event` was published to each of them.
pub open spec fn publish_to_all(
    pending: Map<usize, Seq<Event>>,
    capacity: nat,
    event: Event,
) -> Map<usize, Seq<Event>> {
    Map::new(|id: usize| pending.contains_key(id), |id: usize| enqueue(pending[id], capacity, event))
}

/// Where a subscriber's cursor points after the oldest event was dropped.
spec fn shifted(cursor: Option<usize>) -> Option<usize> {
    match cursor {
        Some(c) => if c > 0 {
            Some((c - 1) as usize)
        } else {
            Some(c)
        },
        None => None,
    }
}

/// A broadcast of events to any number of subscribers.
///
/// Every subscriber sees the events published after it subscribed, in the
/// order of publication. A subscriber that falls `capacity` events behind
/// loses the oldest events it has not read; a publisher never waits.
///
/// The events are kept once, in a backlog of at most `capacity` entries; each
/// subscriber is a cursor into it.
#[derive(Debug)]
pub struct EventStream {
    capacity: usize,
    backlog: Vec<Event>,
    cursors: Vec<Option<usize>>,
}

impl EventStream {
    /// The invariant of the stream: the backlog is within its capacity and
    /// every cursor points into it.
    pub closed spec fn wf(&self) -> bool {
        &&& 1 <= self.capacity
        &&& self.backlog@.len() <= self.capacity
        &&& forall|id: int|
            0 <= id < self.cursors@.len() ==> match #[trigger] self.cursors@[id] {
                Some(c) => c <= self.backlog@.len(),
                None => true,
            }
    }

    /// The most events that a subscriber can have waiting.
    pub closed spec fn capacity(&self) -> nat {
        self.capacity as nat
    }

    /// For each subscriber, the events published to it that it has not read
    /// yet, oldest first.
    pub closed spec fn pending(&self) -> Map<usize, Seq<Event>> {
        Map::new(
            |id: usize| id < self.cursors@.len() && self.cursors@[id as int] is Some,
            |id: usize| self.backlog@.skip(self.cursors@[id as int].unwrap() as int),
        )
    }

    /// No subscriber ever has more than `capacity` events waiting.
    pub proof fn lemma_pending_bounded(&self, id: usize)
        requires
            self.wf(),
            self.pending().contains_key(id),
        ensures
            self.pending()[id].len() <= self.capacity(),
    {
    }

    /// A stream without subscribers. A capacity of zero is refused.
    pub fn new(capacity: usize) -> (r: Result<EventStream, Error>)
        ensures
            capacity == 0 ==> r is Err && r->Err_0 == Error::InvalidArgument,
            capacity > 0 ==> r is Ok && r->Ok_0.wf() && r->Ok_0.capacity() == capacity
                && r->Ok_0.pending() == Map::<usize, Seq<Event>>::empty(),
    {
        if capacity == 0 {
            return Err(Error::InvalidArgument);
        }
        let stream = EventStream { capacity, backlog: Vec::new(), cursors: Vec::new() };
        assert(stream.pending() =~= Map::<usize, Seq<Event>>::empty());
        Ok(stream)
    }

    /// Adds a subscriber, which will see every event published from now on,
    /// and returns the number that names it.
    pub fn subscribe(&mut self) -> (id: usize)
        requires
            old(self).wf(),
        ensures
            final(self).wf(),
            final(self).capacity() == old(self).capacity(),
            !old(self).pending().contains_key(id),
            final(self).pending() == old(self).pending().insert(id, Seq::<Event>::empty()),
    {
        let start: usize = self.backlog.len();
        let mut i: usize = 0;
        while i < self.cursors.len()
            invariant
                i <= self.cursors@.len(),
                forall|j: int| 0 <= j < i ==> self.cursors@[j] is Some,
                *self == *old(self),
                self.wf(),
                start == self.backlog@.len(),
            decreases self.cursors@.len() - i,
        {
            if self.cursors[i].is_none() {
                self.cursors.set(i, Some(start));
                assert(final(self).pending() =~= old(self).pending().insert(
                    i,
                    Seq::<Event>::empty(),
                )) by {
                    assert(self.backlog@.skip(start as int) =~= Seq::<Event>::empty());
                }
                return i;
            }
            i = i + 1;
        }
        self.cursors.push(Some(start));
        assert(self.pending() =~= old(self).pending().insert(i, Seq::<Event>::empty())) by {
            assert(self.backlog@.skip(start as int) =~= Seq::<Event>::empty());
        }
        i
    }

    /// Removes a subscriber; its unread events are forgotten. Removing a
    /// number that names no subscriber changes nothing.
    pub fn unsubscribe(&mut self, id: usize)
        requires
            old(self).wf(),
        ensures
            final(self).wf(),
            final(self).capacity() == old(self).capacity(),
            final(self).pending() == old(self).pending().remove(id),
    {
        if id < self.cursors.len() {
            self.cursors.set(id, None);
        }
        assert(self.pending() =~= old(self).pending().remove(id));
    }

    /// Hands the subscriber its oldest unread event, if it has one.
    pub fn poll(&mut self, id: usize) -> (r: Option<Event>)
        requires
            old(self).wf(),
        ensures
            final(self).wf(),
            final(self).capacity() == old(self).capacity(),
            match r {
                Some(event) => {
                    &&& old(self).pending().contains_key(id)
                    &&& old(self).pending()[id].len() > 0
                    &&& event == old(self).pending()[id][0]
                    &&& final(self).pending() == old(self).pending().insert(
                        id,
                        old(self).pending()[id].skip(1),
                    )
                },
                None => {
                    &&& old(self).pending().contains_key(id) ==> old(self).pending()[id].len() == 0
                    &&& final(self).pending() == old(self).pending()
                },
            },
    {
        if id >= self.cursors.len() {
            return None;
        }
        match self.cursors[id] {
            None => None,
            Some(c) => {
                if c < self.backlog.len() {
                    let event = self.backlog[c];
                    self.cursors.set(id, Some(c + 1));
                    assert(self.pending() =~= old(self).pending().insert(
                        id,
                        old(self).pending()[id].skip(1),
                    )) by {
                        assert(self.backlog@.skip(c + 1) =~= self.backlog@.skip(c as int).skip(1));
                    }
                    Some(event)
                } else {
                    None
                }
            },
        }
    }

    /// Publishes an event to every subscriber.
    pub fn publish(&mut self, event: Event)
        requires
            old(self).wf(),
        ensures
            final(self).wf(),
            final(self).capacity() == old(self).capacity(),
            final(self).pending() == publish_to_all(
                old(self).pending(),
                old(self).capacity(),
                event,
            ),
    {
        if self.backlog.len() == self.capacity {
            let _ = self.backlog.remove(0);
            let mut i: usize = 0;
            while i < self.cursors.len()
                invariant
                    i <= self.cursors@.len(),
                    self.cursors@.len() == old(self).cursors@.len(),
                    self.capacity == old(self).capacity,
                    self.backlog@ == old(self).backlog@.remove(0),
                    old(self).wf(),
                    old(self).backlog@.len() == old(self).capacity,
                    forall|j: int| 0 <= j < i ==> self.cursors@[j] == shifted(old(self).cursors@[j]),
                    forall|j: int|
                        i <= j < self.cursors@.len() ==> self.cursors@[j] == old(self).cursors@[j],
                decreases self.cursors@.len() - i,
            {
                match self.cursors[i] {
                    Some(c) => {
                        if c > 0 {
                            self.cursors.set(i, Some(c - 1));
                        }
                    },
                    None => {},
                }
                i = i + 1;
            }
            self.backlog.push(event);
            assert(self.pending() =~= publish_to_all(
                old(self).pending(),
                old(self).capacity(),
                event,
            )) by {
                let full = old(self).backlog@;
                assert forall|id: usize| self.pending().contains_key(id) implies self.pending()[id]
                    == enqueue(old(self).pending()[id], old(self).capacity(), event) by {
                    let c = old(self).cursors@[id as int].unwrap() as int;
                    if c > 0 {
                        assert(full.remove(0).push(event).skip(c - 1) =~= full.skip(c).push(event));
                    } else {
                        assert(full.remove(0).push(event).skip(0) =~= full.skip(0).skip(1).push(
                            event,
                        ));
                    }
                }
            }
        } else {
            self.backlog.push(event);
            assert(self.pending() =~= publish_to_all(
                old(self).pending(),
                old(self).capacity(),
                event,
            )) by {
                let before = old(self).backlog@;
                assert forall|id: usize| self.pending().contains_key(id) implies self.pending()[id]
                    == enqueue(old(self).pending()[id], old(self).capacity(), event) by {
                    let c = old(self).cursors@[id as int].unwrap() as int;
                    assert(before.push(event).skip(c) =~= before.skip(c).push(event));
                }
            }
        }
    }
}

} // verus!
