//! The outbound channel and its single consumer, the multiplexer. The
//! channel is a bounded FIFO of messages with capacity ten; a `Terminate`
//! sentinel stops the multiplexer, every other message is encoded and
//! written to the socket. The surrounding program's async channel is
//! expected to behave like this model; the FIFO law below is what the
//! producers rely on.

use vstd::prelude::*;
use crate::rfb_messages::{spec_encode, ToServerMessage, ToServerMessageView};

verus! {

/// How many messages the outbound channel holds at most.
pub open spec fn channel_capacity() -> int {
    10
}

/// A bounded FIFO of outbound messages, capacity ten. Its value is the
/// sequence of queued messages, oldest first.
pub struct OutboundChannel {
    items: Vec<ToServerMessage>,
}

impl View for OutboundChannel {
    type V = Seq<ToServerMessageView>;

    closed spec fn view(&self) -> Seq<ToServerMessageView> {
        self.items@.map_values(|m: ToServerMessage| m@)
    }
}

impl OutboundChannel {
    /// An empty channel.
    pub fn new() -> (c: OutboundChannel)
        ensures
            c@ == Seq::<ToServerMessageView>::empty(),
    {
        let c = OutboundChannel { items: Vec::new() };
        proof {
            assert(c@ =~= Seq::<ToServerMessageView>::empty());
        }
        c
    }

    /// How many messages are queued.
    pub fn len(&self) -> (n: usize)
        ensures
            n == self@.len(),
    {
        self.items.len()
    }

    /// Enqueue a message at the back, unless the channel is full: a full
    /// channel exerts backpressure and the message is refused.
    pub fn try_send(&mut self, m: ToServerMessage) -> (ok: bool)
        ensures
            old(self)@.len() < channel_capacity() ==> ok && final(self)@ == old(self)@.push(m@),
            old(self)@.len() >= channel_capacity() ==> !ok && final(self)@ == old(self)@,
    {
        if self.items.len() < 10 {
            let ghost before = self@;
            self.items.push(m);
            proof {
                assert(self@ =~= before.push(m@));
            }
            true
        } else {
            false
        }
    }

    /// Dequeue the oldest message, if any.
    pub fn recv(&mut self) -> (m: Option<ToServerMessage>)
        ensures
            old(self)@.len() == 0 ==> m is None && final(self)@ == old(self)@,
            old(self)@.len() > 0 ==> (m matches Some(msg) && msg@ == old(self)@[0])
                && final(self)@ == old(self)@.drop_first(),
    {
        if self.items.len() == 0 {
            None
        } else {
            let ghost before = self@;
            let first = self.items.remove(0);
            proof {
                assert(self@ =~= before.drop_first());
            }
            Some(first)
        }
    }
}

/// Channel FIFO: enqueuing keeps every queued message in place and appends
/// at the back, so two messages enqueued by one producer, first `a` then
/// `b`, stand in the queue in that order; the consumer always takes the
/// front, so it receives `a` before `b`.
pub proof fn lemma_channel_fifo(q: Seq<ToServerMessageView>, a: ToServerMessageView,
    b: ToServerMessageView)
    ensures
        q.push(a).push(b)[q.len() as int] == a,
        q.push(a).push(b)[q.len() as int + 1] == b,
        forall|i: int| 0 <= i < q.len() ==> q.push(a).push(b)[i] == q[i],
{
}

/// What the multiplexer does with one received message: the local
/// `Terminate` sentinel stops it (`None`); any other message becomes its
/// wire bytes.
pub fn mux_step(m: &ToServerMessage) -> (r: Option<Vec<u8>>)
    requires
        m@ matches ToServerMessageView::SetEncoding(encs) ==> encs.len() <= 0xFFFF,
        m@ matches ToServerMessageView::SetCurText(text) ==> text.len() <= 0xFFFFFFFFu64,
    ensures
        m@ is Terminate ==> r is None,
        !(m@ is Terminate) ==> (r matches Some(bytes) && bytes@ == spec_encode(m@)),
{
    match m {
        ToServerMessage::Terminate => None,
        _ => Some(m.encode()),
    }
}

} // verus!
