//! The ingestion queue: a bounded line of pending messages between the chat
//! and the publish loop, first in, first out.

use std::collections::VecDeque;
use vstd::prelude::*;

use crate::publish::PendingMessage;

verus! {

/// A queue that holds at most `capacity` messages. A full queue takes no
/// more: the producer keeps its message and waits.
pub struct IngestionQueue {
    items: VecDeque<PendingMessage>,
    capacity: usize,
}

/// What a queue for at most `limit` messages holds after `message` was
/// offered to it: the message at the back where there was room, else what it
/// held before.
pub open spec fn after_offer(
    items: Seq<PendingMessage>,
    limit: nat,
    message: PendingMessage,
) -> Seq<PendingMessage> {
    if items.len() < limit {
        items.push(message)
    } else {
        items
    }
}

/// What a queue holds after its front message was taken, if it had one.
pub open spec fn after_take(items: Seq<PendingMessage>) -> Seq<PendingMessage> {
    if items.len() > 0 {
        items.drop_first()
    } else {
        items
    }
}

/// A full queue pushes back: an offer changes nothing in it, however often
/// it is made, until a message is taken; the next offer then finds room, and
/// the message joins at the back, behind all that waited before it.
pub proof fn lemma_full_queue_pushes_back(
    items: Seq<PendingMessage>,
    limit: nat,
    message: PendingMessage,
)
    requires
        0 < limit,
        items.len() == limit,
    ensures
        after_offer(items, limit, message) == items,
        after_offer(after_take(items), limit, message) == items.drop_first().push(message),
        after_offer(after_take(items), limit, message).len() == limit,
{
}

/// Messages leave in the order in which they came: what was offered to a
/// queue with room is taken only after all that the queue held.
pub proof fn lemma_first_in_first_out(
    items: Seq<PendingMessage>,
    limit: nat,
    message: PendingMessage,
)
    requires
        0 < items.len() < limit,
    ensures
        after_take(after_offer(items, limit, message)) == after_take(items).push(message),
        after_offer(items, limit, message)[0] == items[0],
{
    assert(items.push(message).drop_first() =~= items.drop_first().push(message));
}

impl View for IngestionQueue {
    type V = Seq<PendingMessage>;

    closed spec fn view(&self) -> Seq<PendingMessage> {
        self.items@
    }
}

impl IngestionQueue {
    /// The queue has room for at least one message and holds no more than it
    /// has room for.
    pub open spec fn well_formed(&self) -> bool {
        0 < self.limit() && self@.len() <= self.limit()
    }

    /// The most messages that the queue holds at once.
    pub closed spec fn limit(&self) -> nat {
        self.capacity as nat
    }

    /// Makes an empty queue for at most `capacity` messages; `None` where
    /// `capacity` is zero, since such a queue could never pass a message on.
    pub fn new(capacity: usize) -> (queue: Option<IngestionQueue>)
        ensures
            match queue {
                Some(made) => capacity > 0 && made.well_formed() && made@ == Seq::<
                    PendingMessage,
                >::empty() && made.limit() == capacity,
                None => capacity == 0,
            },
    {
        if capacity == 0 {
            None
        } else {
            Some(IngestionQueue { items: VecDeque::new(), capacity })
        }
    }

    /// The most messages that the queue holds at once.
    pub fn capacity(&self) -> (capacity: usize)
        requires
            self.well_formed(),
        ensures
            capacity == self.limit(),
            capacity > 0,
            self@.len() <= capacity,
    {
        self.capacity
    }

    /// How many messages wait in the queue.
    pub fn len(&self) -> (len: usize)
        requires
            self.well_formed(),
        ensures
            len == self@.len(),
            len <= self.limit(),
    {
        self.items.len()
    }

    /// No message waits.
    pub fn is_empty(&self) -> (empty: bool)
        ensures
            empty == (self@.len() == 0),
    {
        self.items.len() == 0
    }

    /// The queue takes no more.
    pub fn is_full(&self) -> (full: bool)
        requires
            self.well_formed(),
        ensures
            full == (self@.len() == self.limit()),
    {
        self.items.len() == self.capacity
    }

    /// Puts a message at the back of the queue where there is room. Where
    /// the queue is full it stays as it is and the message comes back, for
    /// the producer to offer again when a message has left.
    pub fn try_enqueue(&mut self, message: PendingMessage) -> (refused: Result<(), PendingMessage>)
        requires
            old(self).well_formed(),
        ensures
            final(self).well_formed(),
            final(self).limit() == old(self).limit(),
            final(self)@ == after_offer(old(self)@, old(self).limit(), message),
            match refused {
                Ok(_) => old(self)@.len() < old(self).limit(),
                Err(back) => old(self)@.len() == old(self).limit() && back == message,
            },
    {
        if self.items.len() < self.capacity {
            self.items.push_back(message);
            Ok(())
        } else {
            Err(message)
        }
    }

    /// Takes the message at the front of the queue, the one that has waited
    /// longest; `None` where none waits.
    pub fn dequeue(&mut self) -> (message: Option<PendingMessage>)
        requires
            old(self).well_formed(),
        ensures
            final(self).well_formed(),
            final(self).limit() == old(self).limit(),
            final(self)@ == after_take(old(self)@),
            match message {
                Some(first) => old(self)@.len() > 0 && first == old(self)@[0],
                None => old(self)@.len() == 0,
            },
    {
        let message = self.items.pop_front();
        proof {
            if old(self)@.len() > 0 {
                assert(self.items@ =~= old(self)@.drop_first());
            }
        }
        message
    }
}

} // verus!
