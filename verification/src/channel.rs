//! The dispatch channel, seen through the workers' mutex.
//!
//! The real channel is a multi-producer, single-consumer queue whose one
//! receiving end the workers share behind a mutex, so sends and receives
//! linearize into a single FIFO history. `Channel` is that linearized queue:
//! `send` is one producer-side enqueue, `recv` is one lock acquisition plus
//! dequeue by whichever worker won the lock. Its view is the sequence of
//! messages currently queued, oldest first.

use vstd::prelude::*;

use crate::message::Message;

verus! {

/// The linearized message queue of the dispatch channel.
pub struct Channel {
    buf: Vec<Message>,
}

impl View for Channel {
    type V = Seq<Message>;

    closed spec fn view(&self) -> Seq<Message> {
        self.buf@
    }
}

impl Channel {
    /// An empty channel.
    pub fn new() -> (c: Channel)
        ensures
            c@ == Seq::<Message>::empty(),
    {
        Channel { buf: Vec::new() }
    }

    /// Enqueue one message; never blocks, never loses or reorders a message.
    pub fn send(&mut self, m: Message)
        ensures
            final(self)@ == old(self)@.push(m),
    {
        self.buf.push(m);
    }

    /// Dequeue the oldest message; it leaves the queue, so no two receivers
    /// can ever obtain the same message.
    pub fn recv(&mut self) -> (m: Message)
        requires
            old(self)@.len() > 0,
        ensures
            m == old(self)@[0],
            final(self)@ == old(self)@.drop_first(),
    {
        let m = self.buf.remove(0);
        proof {
            assert(self.buf@ =~= old(self)@.drop_first());
        }
        m
    }

    /// How many messages are queued.
    pub fn len(&self) -> (n: usize)
        ensures
            n == self@.len(),
    {
        self.buf.len()
    }

    /// Whether the queue is empty.
    pub fn is_empty(&self) -> (r: bool)
        ensures
            r <==> self@.len() == 0,
    {
        self.buf.len() == 0
    }
}

} // verus!
