//! The handoff channel: a single-producer / single-consumer,
//! ownership-transferring queue of frame buffers with a bounded
//! capacity and a drop-newest overflow policy.
//!
//! The producer side never blocks: when the queue is full an offered
//! block is discarded and counted, and when the consumer side is gone
//! the offer reports disconnection. The channel keeps ghost histories
//! of the blocks it accepted and the blocks it handed out, so that
//! order preservation and the backpressure accounting are stated and
//! proved over them.

use vstd::prelude::*;

use crate::frame::FrameBuffer;

verus! {

/// What became of one offered block.
#[derive(Clone, Copy, PartialEq, Eq, Debug)]
pub enum OfferOutcome {
    /// The block was queued for the consumer.
    Accepted,
    /// The queue was full; the block was discarded and counted.
    Dropped,
    /// The consumer side is gone; the block was discarded uncounted.
    Disconnected,
}

/// What one receive produced.
pub enum ReceiveOutcome {
    /// The oldest pending block, removed from the queue.
    Block(FrameBuffer),
    /// The producer side is gone and nothing is pending.
    Closed,
}

/// Bounded single-producer / single-consumer queue of frame buffers.
pub struct HandoffChannel {
    queue: Vec<FrameBuffer>,
    capacity: usize,
    dropped: u64,
    producer_open: bool,
    consumer_open: bool,
    sent: Ghost<Seq<Seq<u32>>>,
    delivered: Ghost<Seq<Seq<u32>>>,
    offered: Ghost<nat>,
}

impl HandoffChannel {
    /// The pending blocks, oldest first, each as its sample sequence.
    pub closed spec fn pending(&self) -> Seq<Seq<u32>> {
        self.queue@.map_values(|b: FrameBuffer| b@)
    }

    /// Every block the channel accepted, in production order.
    pub closed spec fn sent(&self) -> Seq<Seq<u32>> {
        self.sent@
    }

    /// Every block handed to the consumer, in the order handed out.
    pub closed spec fn delivered(&self) -> Seq<Seq<u32>> {
        self.delivered@
    }

    /// Value of the dropped-block counter.
    pub closed spec fn dropped_count(&self) -> u64 {
        self.dropped
    }

    /// How many offers the producer has made while the consumer side
    /// was alive, counted or accepted.
    pub closed spec fn offered_count(&self) -> nat {
        self.offered@
    }

    /// The capacity bound the channel was created with.
    pub closed spec fn bound(&self) -> nat {
        self.capacity as nat
    }

    /// Whether the producer side is still attached.
    pub closed spec fn producer_live(&self) -> bool {
        self.producer_open
    }

    /// Whether the consumer side is still attached.
    pub closed spec fn consumer_live(&self) -> bool {
        self.consumer_open
    }

    /// Channel invariant: the queue respects the bound, the accepted
    /// history is exactly the delivered history followed by the
    /// pending blocks, and every offer is accounted for either in the
    /// accepted history or in the dropped-block counter.
    pub closed spec fn wf(&self) -> bool {
        &&& self.capacity >= 1
        &&& self.queue@.len() <= self.capacity
        &&& self.sent@ == self.delivered@ + self.pending()
        &&& self.offered@ == self.sent@.len() + self.dropped
    }

    /// Creates an empty channel with both sides attached.
    pub fn new(capacity: usize) -> (r: HandoffChannel)
        requires
            capacity >= 1,
        ensures
            r.wf(),
            r.bound() == capacity,
            r.pending() == Seq::<Seq<u32>>::empty(),
            r.sent() == Seq::<Seq<u32>>::empty(),
            r.delivered() == Seq::<Seq<u32>>::empty(),
            r.dropped_count() == 0,
            r.offered_count() == 0,
            r.producer_live(),
            r.consumer_live(),
    {
        let r = HandoffChannel {
            queue: Vec::new(),
            capacity,
            dropped: 0,
            producer_open: true,
            consumer_open: true,
            sent: Ghost(Seq::empty()),
            delivered: Ghost(Seq::empty()),
            offered: Ghost(0),
        };
        proof {
            assert(r.pending() =~= Seq::<Seq<u32>>::empty());
            assert(r.sent@ =~= r.delivered@ + r.pending());
        }
        r
    }

    /// Producer side: offers one block without ever blocking. While
    /// the consumer is alive, the block is queued if there is room and
    /// otherwise discarded with the dropped-block counter increased by
    /// one; once the consumer side is gone, the offer only reports the
    /// disconnection.
    pub fn offer(&mut self, block: FrameBuffer) -> (r: OfferOutcome)
        requires
            old(self).wf(),
            old(self).producer_live(),
            old(self).dropped_count() < u64::MAX,
        ensures
            final(self).wf(),
            final(self).bound() == old(self).bound(),
            final(self).producer_live(),
            final(self).consumer_live() == old(self).consumer_live(),
            final(self).delivered() == old(self).delivered(),
            r is Disconnected <==> !old(self).consumer_live(),
            !old(self).consumer_live() ==> ({
                &&& r is Disconnected
                &&& final(self).pending() == old(self).pending()
                &&& final(self).sent() == old(self).sent()
                &&& final(self).dropped_count() == old(self).dropped_count()
                &&& final(self).offered_count() == old(self).offered_count()
            }),
            old(self).consumer_live() && old(self).pending().len() < old(self).bound() ==> ({
                &&& r is Accepted
                &&& final(self).pending() == old(self).pending().push(block@)
                &&& final(self).sent() == old(self).sent().push(block@)
                &&& final(self).dropped_count() == old(self).dropped_count()
                &&& final(self).offered_count() == old(self).offered_count() + 1
            }),
            old(self).consumer_live() && old(self).pending().len() == old(self).bound() ==> ({
                &&& r is Dropped
                &&& final(self).pending() == old(self).pending()
                &&& final(self).sent() == old(self).sent()
                &&& final(self).dropped_count() == old(self).dropped_count() + 1
                &&& final(self).offered_count() == old(self).offered_count() + 1
            }),
    {
        if !self.consumer_open {
            return OfferOutcome::Disconnected;
        }
        if self.queue.len() == self.capacity {
            self.dropped = self.dropped + 1;
            proof {
                self.offered@ = self.offered@ + 1;
            }
            return OfferOutcome::Dropped;
        }
        let ghost b = block@;
        self.queue.push(block);
        proof {
            self.sent@ = self.sent@.push(b);
            self.offered@ = self.offered@ + 1;
            assert(self.pending() =~= old(self).pending().push(b));
            assert(self.sent@ =~= self.delivered@ + self.pending());
        }
        OfferOutcome::Accepted
    }

    /// Consumer side: takes the oldest pending block, or reports
    /// closure. The model stands for a blocking receive, so it is
    /// called only once a block is pending or the producer side is
    /// gone — the two conditions under which a blocking receive
    /// returns. Blocks come out in exactly the order they were
    /// accepted.
    pub fn receive(&mut self) -> (r: ReceiveOutcome)
        requires
            old(self).wf(),
            old(self).consumer_live(),
            old(self).pending().len() > 0 || !old(self).producer_live(),
        ensures
            final(self).wf(),
            final(self).bound() == old(self).bound(),
            final(self).producer_live() == old(self).producer_live(),
            final(self).consumer_live(),
            final(self).sent() == old(self).sent(),
            final(self).dropped_count() == old(self).dropped_count(),
            final(self).offered_count() == old(self).offered_count(),
            old(self).pending().len() > 0 ==> ({
                &&& r is Block
                &&& (r matches ReceiveOutcome::Block(b) ==> ({
                    &&& b@ == old(self).pending()[0]
                    &&& b@ == old(self).sent()[old(self).delivered().len() as int]
                    &&& final(self).pending() == old(self).pending().drop_first()
                    &&& final(self).delivered() == old(self).delivered().push(b@)
                }))
            }),
            old(self).pending().len() == 0 ==> ({
                &&& r is Closed
                &&& final(self).pending() == old(self).pending()
                &&& final(self).delivered() == old(self).delivered()
                &&& final(self).delivered() == final(self).sent()
            }),
    {
        if self.queue.len() == 0 {
            proof {
                assert(self.sent@ =~= self.delivered@);
            }
            return ReceiveOutcome::Closed;
        }
        let block = self.queue.remove(0);
        let ghost b = block@;
        proof {
            self.delivered@ = self.delivered@.push(b);
            assert(self.pending() =~= old(self).pending().drop_first());
            assert(old(self).sent@[self.delivered@.len() - 1] == b);
            assert(self.sent@ =~= self.delivered@ + self.pending());
        }
        ReceiveOutcome::Block(block)
    }

    /// Releases the producer side, as session deactivation does. After
    /// this, receives drain what is pending and then report closure.
    pub fn close_producer(&mut self)
        requires
            old(self).wf(),
        ensures
            final(self).wf(),
            !final(self).producer_live(),
            final(self).consumer_live() == old(self).consumer_live(),
            final(self).bound() == old(self).bound(),
            final(self).pending() == old(self).pending(),
            final(self).sent() == old(self).sent(),
            final(self).delivered() == old(self).delivered(),
            final(self).dropped_count() == old(self).dropped_count(),
            final(self).offered_count() == old(self).offered_count(),
    {
        self.producer_open = false;
    }

    /// Releases the consumer side. Later offers report disconnection.
    pub fn close_consumer(&mut self)
        requires
            old(self).wf(),
        ensures
            final(self).wf(),
            !final(self).consumer_live(),
            final(self).producer_live() == old(self).producer_live(),
            final(self).bound() == old(self).bound(),
            final(self).pending() == old(self).pending(),
            final(self).sent() == old(self).sent(),
            final(self).delivered() == old(self).delivered(),
            final(self).dropped_count() == old(self).dropped_count(),
            final(self).offered_count() == old(self).offered_count(),
    {
        self.consumer_open = false;
    }

    /// Value of the dropped-block counter.
    pub fn dropped_blocks(&self) -> (r: u64)
        ensures
            r == self.dropped_count(),
    {
        self.dropped
    }

    /// Number of blocks waiting for the consumer.
    pub fn pending_len(&self) -> (r: usize)
        ensures
            r == self.pending().len(),
    {
        self.queue.len()
    }

    /// The capacity bound the channel was created with.
    pub fn capacity(&self) -> (r: usize)
        ensures
            r == self.bound(),
    {
        self.capacity
    }
}

/// Order preservation law. At every state of a well-formed channel,
/// the blocks the consumer has observed are exactly a prefix of the
/// blocks accepted from the producer, in the same order — no
/// reordering, no duplication, no silent loss — and the count of
/// observed plus still-pending blocks equals the count accepted, which
/// in turn falls short of the offers made only by the explicitly
/// counted drops.
pub proof fn lemma_order_preservation(ch: HandoffChannel)
    requires
        ch.wf(),
    ensures
        ch.delivered() == ch.sent().take(ch.delivered().len() as int),
        ch.sent().len() == ch.delivered().len() + ch.pending().len(),
        ch.offered_count() == ch.sent().len() + ch.dropped_count(),
{
    assert(ch.delivered() =~= ch.sent().take(ch.delivered().len() as int));
}

/// Backpressure accounting. With a stalled consumer (nothing delivered
/// yet), the queue can hold at most the capacity bound, so the
/// dropped-block counter accounts exactly for every offer beyond what
/// the queue retains; in particular, once the number of offers exceeds
/// the bound by some surplus, at least that surplus has been counted
/// as dropped. The producer is never blocked: `offer` discards and
/// counts instead of waiting.
pub proof fn lemma_backpressure_bound(ch: HandoffChannel)
    requires
        ch.wf(),
        ch.delivered().len() == 0,
    ensures
        ch.dropped_count() == ch.offered_count() - ch.sent().len(),
        ch.sent().len() <= ch.bound(),
        ch.offered_count() >= ch.bound() ==> ch.dropped_count() >= ch.offered_count() - ch.bound(),
        ch.pending().len() == ch.bound() ==> ch.dropped_count() == ch.offered_count() - ch.bound(),
{
    assert(ch.sent@ =~= ch.delivered@ + ch.pending());
    assert(ch.sent@.len() == ch.pending().len());
}

} // verus!
