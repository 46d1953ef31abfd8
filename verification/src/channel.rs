//! The command channel: a bounded FIFO queue carrying commands from the
//! UI-facing producers to the single IO worker.
//!
//! The model keeps the whole send history alongside the pending buffer, so
//! the contracts can say exactly which command each receive yields: the
//! k-th command ever received is the k-th command ever accepted, in one
//! global order. Per-producer order preservation follows: a producer's
//! sends occupy increasing positions of that order, so no command of a
//! producer is received before an earlier one of the same producer.

use vstd::prelude::*;
use crate::handler::IoEvent;

verus! {

/// How many commands may sit in the channel at once.
pub const CHANNEL_CAPACITY: usize = 100;

/// A bounded multi-producer, single-consumer FIFO queue of commands.
pub struct CommandChannel {
    queue: Vec<IoEvent>,
    hist: Ghost<Seq<IoEvent>>,
    taken: Ghost<int>,
}

impl CommandChannel {
    /// Every command ever accepted, in the order of acceptance.
    pub closed spec fn sent(self) -> Seq<IoEvent> {
        self.hist@
    }

    /// How many commands the consumer has received so far.
    pub closed spec fn delivered_count(self) -> int {
        self.taken@
    }

    /// The commands accepted but not yet received, oldest first.
    pub closed spec fn pending(self) -> Seq<IoEvent> {
        self.queue@
    }

    pub closed spec fn wf(self) -> bool {
        &&& 0 <= self.taken@
        &&& self.hist@.len() == self.taken@ + self.queue@.len()
        &&& self.queue@ == self.hist@.skip(self.taken@)
        &&& self.queue@.len() <= CHANNEL_CAPACITY
    }

    /// An empty channel.
    pub fn new() -> (c: Self)
        ensures
            c.wf(),
            c.sent() == Seq::<IoEvent>::empty(),
            c.delivered_count() == 0,
    {
        let c = CommandChannel {
            queue: Vec::new(),
            hist: Ghost(Seq::empty()),
            taken: Ghost(0int),
        };
        proof {
            assert(c.queue@ =~= c.hist@.skip(0));
        }
        c
    }

    /// Enqueue one command. It is accepted exactly when the channel is not
    /// full; a full channel leaves everything unchanged, and the caller
    /// suspends and retries.
    pub fn send(&mut self, ev: IoEvent) -> (ok: bool)
        requires
            old(self).wf(),
        ensures
            final(self).wf(),
            ok == (old(self).pending().len() < CHANNEL_CAPACITY),
            ok ==> {
                &&& final(self).sent() == old(self).sent().push(ev)
                &&& final(self).pending() == old(self).pending().push(ev)
                &&& final(self).delivered_count() == old(self).delivered_count()
            },
            !ok ==> *final(self) == *old(self),
    {
        if self.queue.len() < CHANNEL_CAPACITY {
            self.queue.push(ev);
            proof {
                self.hist@ = self.hist@.push(ev);
                assert(self.queue@ =~= self.hist@.skip(self.taken@));
            }
            true
        } else {
            false
        }
    }

    /// Receive the oldest pending command: exactly the `delivered_count()`-th
    /// command of the send history. An empty channel yields nothing and is
    /// left unchanged.
    pub fn recv(&mut self) -> (r: Option<IoEvent>)
        requires
            old(self).wf(),
        ensures
            final(self).wf(),
            old(self).pending().len() == 0 ==> r is None && *final(self) == *old(self),
            old(self).pending().len() > 0 ==> {
                &&& r == Some(old(self).sent()[old(self).delivered_count()])
                &&& r == Some(old(self).pending()[0])
                &&& final(self).sent() == old(self).sent()
                &&& final(self).delivered_count() == old(self).delivered_count() + 1
                &&& final(self).pending() == old(self).pending().skip(1)
            },
    {
        if self.queue.len() == 0 {
            return None;
        }
        let ev = self.queue.remove(0);
        proof {
            self.taken@ = self.taken@ + 1;
            assert(self.queue@ =~= self.hist@.skip(self.taken@));
        }
        Some(ev)
    }
}

/// FIFO: at every point, what the consumer has yet to see is exactly the
/// suffix of the send history after the commands already delivered, in send
/// order. Together with `recv`'s contract this pins the whole delivery
/// order to the send order; in particular, two commands enqueued by one
/// producer are delivered in the order that producer sent them, however the
/// producers interleaved.
pub proof fn lemma_channel_fifo(c: CommandChannel, k: int)
    requires
        c.wf(),
        c.delivered_count() <= k < c.sent().len(),
    ensures
        c.pending()[k - c.delivered_count()] == c.sent()[k],
{
}

/// The commands of one producer within a tagged send history, in order.
pub open spec fn owned_by(sends: Seq<(int, IoEvent)>, p: int) -> Seq<(int, IoEvent)> {
    sends.filter(|e: (int, IoEvent)| e.0 == p)
}

/// Per-producer order under arbitrary interleaving. Tag each accepted
/// command with its producer: by `recv`'s contract the consumer has drained
/// exactly `sends.take(k)` after `k` receives, so what it has seen of one
/// producer is a prefix of that producer's own send sequence - no command
/// is processed before one the same producer enqueued earlier.
pub proof fn lemma_per_producer_order(sends: Seq<(int, IoEvent)>, k: int, p: int)
    requires
        0 <= k <= sends.len(),
    ensures
        owned_by(sends.take(k), p).is_prefix_of(owned_by(sends, p)),
{
    broadcast use vstd::seq_lib::group_seq_properties;

    assert(sends =~= sends.take(k) + sends.skip(k));
    assert(owned_by(sends.take(k) + sends.skip(k), p) == owned_by(sends.take(k), p) + owned_by(
        sends.skip(k),
        p,
    ));
}

} // verus!
