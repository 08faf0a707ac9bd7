//! Result queue of the parallel walk: workers send each directory's result
//! with its index path and child count; the consumer releases them strictly
//! in depth-first preorder, holding back results that arrive early.

use crate::channel::{arc_clone, channel_bounded, channel_send, channel_try_recv, sender_clone, QueuePoll, MAX_CHANNEL_CAPACITY};
use crate::index_path::INDEX_PATH_MAX_DEPTH;
use crate::ordered::Ordered;
use crate::ordered_matcher::{advance, OrderedMatcher};
use crate::priority::{lemma_rank_order, Prioritized};
use crate::priority_buffer::PriorityBuffer;
use crossbeam::channel::{Receiver, SendError, Sender};
use std::sync::atomic::AtomicBool;
use std::sync::Arc;
use vstd::multiset::Multiset;
use vstd::prelude::*;

verus! {

/// Initial capacity of the consumer's buffer.
pub const ORDERED_INITIAL_HEAP_CAPACITY: usize = 256;

/// Producer side.
#[verifier::reject_recursive_types(T)]
pub struct OrderedQueue<T: Send> {
    sender: Sender<Ordered<T>>,
    stop: Arc<AtomicBool>,
}

/// Consumer side.
#[verifier::reject_recursive_types(T)]
pub struct OrderedQueueIter<T: Send> {
    stop: Arc<AtomicBool>,
    receiver: Receiver<Ordered<T>>,
    receive_buffer: PriorityBuffer<Ordered<T>>,
    ordered_matcher: OrderedMatcher,
    max_receive_buffer_size: usize,
}

/// A connected producer and consumer sharing `stop`: the channel holds up to
/// `channel_capacity` results, and the consumer drains at most up to
/// `max_receive_buffer_size` buffered results at a time. The consumer starts
/// out expecting the root.
pub fn new_ordered_queue<T: Send>(
    stop: Arc<AtomicBool>,
    channel_capacity: usize,
    max_receive_buffer_size: usize,
) -> (r: (OrderedQueue<T>, OrderedQueueIter<T>))
    requires
        channel_capacity <= MAX_CHANNEL_CAPACITY,
    ensures
        r.1.wf(),
        r.1.expecting() == (seq![0usize], seq![1usize]),
        r.1.buffered() =~= Multiset::<Ordered<T>>::empty(),
        r.1.max_buffered() == max_receive_buffer_size,
{
    let (sender, receiver) = channel_bounded(channel_capacity);
    (
        OrderedQueue { sender, stop: stop.clone() },
        OrderedQueueIter {
            receiver,
            ordered_matcher: OrderedMatcher::default(),
            receive_buffer: PriorityBuffer::with_capacity(ORDERED_INITIAL_HEAP_CAPACITY),
            stop,
            max_receive_buffer_size,
        },
    )
}

impl<T: Send> OrderedQueue<T> {
    /// Sends a result, blocking while the channel is full.
    pub fn push(&self, ordered: Ordered<T>) -> Result<(), SendError<Ordered<T>>> {
        channel_send(&self.sender, ordered)
    }

    /// Another producer handle on the same channel and the same stop flag: a
    /// handle equal to this one.
    pub fn clone(&self) -> (r: Self)
        ensures
            r == *self,
    {
        OrderedQueue { sender: sender_clone(&self.sender), stop: arc_clone(&self.stop) }
    }
}

impl<T: Send> OrderedQueueIter<T> {
    /// The expected-path state is consistent.
    pub closed spec fn wf(&self) -> bool {
        self.ordered_matcher.wf()
    }

    /// Results received and not released yet.
    pub closed spec fn buffered(&self) -> Multiset<Ordered<T>> {
        self.receive_buffer.contents()
    }

    /// The expected path and the remaining-children counts.
    pub closed spec fn expecting(&self) -> (Seq<usize>, Seq<usize>) {
        self.ordered_matcher@
    }

    /// The drain limit.
    pub closed spec fn max_buffered(&self) -> usize {
        self.max_receive_buffer_size
    }

    /// Whether the walk was told to stop.
    pub fn is_stop(&self) -> bool {
        self.stop.load(std::sync::atomic::Ordering::Acquire)
    }

    /// The depth of the expected path.
    pub fn depth(&self) -> (d: usize)
        ensures
            d == self.expecting().0.len(),
    {
        self.ordered_matcher.depth()
    }

    /// The consumer's end of the channel.
    pub closed spec fn channel(&self) -> Receiver<Ordered<T>> {
        self.receiver
    }

    /// The consumer's end of the channel (the one `drain_channel` reads),
    /// for a blocking receive with a timeout.
    pub fn receiver(&self) -> (r: &Receiver<Ordered<T>>)
        ensures
            *r == self.channel(),
    {
        &self.receiver
    }

    /// Buffers a result received from the channel.
    pub fn accept(&mut self, ordered: Ordered<T>)
        requires
            old(self).wf(),
        ensures
            final(self).wf(),
            final(self).buffered() =~= old(self).buffered().insert(ordered),
            final(self).expecting() == old(self).expecting(),
            final(self).max_buffered() == old(self).max_buffered(),
    {
        self.receive_buffer.push(ordered);
    }

    /// Moves the ready results from the channel into the buffer, stopping
    /// when the channel has none or the buffer holds the drain limit.
    pub fn drain_channel(&mut self)
        requires
            old(self).wf(),
        ensures
            final(self).wf(),
            old(self).buffered().subset_of(final(self).buffered()),
            final(self).buffered().len() <= old(self).buffered().len() || final(self).buffered().len()
                <= old(self).max_buffered(),
            final(self).expecting() == old(self).expecting(),
            final(self).max_buffered() == old(self).max_buffered(),
    {
        while self.receive_buffer.len() < self.max_receive_buffer_size
            invariant
                self.wf(),
                old(self).buffered().subset_of(self.buffered()),
                self.buffered().len() <= old(self).buffered().len() || self.buffered().len()
                    <= old(self).max_buffered(),
                self.expecting() == old(self).expecting(),
                self.max_buffered() == old(self).max_buffered(),
            decreases self.max_receive_buffer_size - self.buffered().len(),
        {
            match channel_try_recv(&self.receiver) {
                Ok(ordered) => {
                    self.receive_buffer.push(ordered);
                },
                Err(_) => {
                    break;
                },
            }
        }
    }

    /// One non-blocking step of the strict consumer: reads the stop flag,
    /// then takes the step that `poll_strict_given_stop` describes for what it
    /// read.
    pub fn poll_strict(&mut self) -> (r: QueuePoll<Ordered<T>>)
        requires
            old(self).wf(),
            old(self).expecting().0.len() < INDEX_PATH_MAX_DEPTH,
        ensures
            final(self).wf(),
            final(self).max_buffered() == old(self).max_buffered(),
            match r {
                QueuePoll::Ready(o) => {
                    &&& o.index_path@ == old(self).expecting().0
                    &&& PriorityBuffer::is_top_of(o, final(self).buffered().insert(o))
                    &&& old(self).buffered().subset_of(final(self).buffered().insert(o))
                    &&& final(self).expecting() == (if o.child_count == 0 && o.index_path@.len()
                        == 0 {
                        old(self).expecting()
                    } else {
                        advance(old(self).expecting().0, old(self).expecting().1, o.child_count)
                    })
                },
                QueuePoll::Empty => {
                    &&& final(self).expecting() == old(self).expecting()
                    &&& old(self).expecting().0.len() > 0
                    &&& old(self).buffered().subset_of(final(self).buffered())
                    &&& forall|o: Ordered<T>|
                        PriorityBuffer::is_top_of(o, final(self).buffered()) ==> o.index_path@
                            != old(self).expecting().0
                },
                QueuePoll::Disconnected => {
                    &&& final(self).expecting() == old(self).expecting()
                    &&& old(self).buffered().subset_of(final(self).buffered())
                },
            },
    {
        let stopped = self.is_stop();
        self.poll_strict_given_stop(stopped)
    }

    /// The step of the strict consumer once the stop flag was read as
    /// `stopped`. `Disconnected` when the walk was stopped. The expected
    /// result is released as soon as it is the top of the buffer; otherwise
    /// the ready results are drained from the channel first and the top is
    /// checked again. With the expected result still missing: `Disconnected`
    /// when the whole tree went out (nothing is expected any more), else
    /// `Empty` (wait for the channel and poll again). A result that is not the
    /// expected one is never released here, so the expectation never falls
    /// out of step.
    pub fn poll_strict_given_stop(&mut self, stopped: bool) -> (r: QueuePoll<Ordered<T>>)
        requires
            old(self).wf(),
            old(self).expecting().0.len() < INDEX_PATH_MAX_DEPTH,
        ensures
            final(self).wf(),
            final(self).max_buffered() == old(self).max_buffered(),
            match r {
                QueuePoll::Ready(o) => {
                    &&& o.index_path@ == old(self).expecting().0
                    &&& PriorityBuffer::is_top_of(o, final(self).buffered().insert(o))
                    &&& old(self).buffered().subset_of(final(self).buffered().insert(o))
                    &&& final(self).expecting() == (if o.child_count == 0 && o.index_path@.len()
                        == 0 {
                        old(self).expecting()
                    } else {
                        advance(old(self).expecting().0, old(self).expecting().1, o.child_count)
                    })
                },
                QueuePoll::Empty => {
                    &&& final(self).expecting() == old(self).expecting()
                    &&& old(self).expecting().0.len() > 0
                    &&& old(self).buffered().subset_of(final(self).buffered())
                    &&& forall|o: Ordered<T>|
                        PriorityBuffer::is_top_of(o, final(self).buffered()) ==> o.index_path@
                            != old(self).expecting().0
                },
                QueuePoll::Disconnected => {
                    &&& final(self).expecting() == old(self).expecting()
                    &&& old(self).buffered().subset_of(final(self).buffered())
                },
            },
            stopped ==> r is Disconnected && final(self).buffered() == old(self).buffered(),
            !stopped && r is Disconnected ==> old(self).expecting().0.len() == 0,
    {
        if stopped {
            return QueuePoll::Disconnected;
        }
        match self.take_expected() {
            Some(o) => {
                assert(self.buffered().insert(o) =~= old(self).buffered());
                return QueuePoll::Ready(o);
            },
            None => {},
        }
        let ghost before_drain = self.buffered();
        self.drain_channel();
        let ghost drained = self.buffered();
        match self.take_expected() {
            Some(o) => {
                assert(self.buffered().insert(o) =~= drained);
                assert(old(self).buffered().subset_of(self.buffered().insert(o)));
                return QueuePoll::Ready(o);
            },
            None => {},
        }
        if self.ordered_matcher.is_none() {
            return QueuePoll::Disconnected;
        }
        QueuePoll::Empty
    }

    /// What the consumer hands out once the channel is disconnected: after a
    /// last drain, the expected result if it is the top of the buffer (and the
    /// expectation moves past it), else the top of the buffer as it is
    /// (depth-first order of what is left, the expectation unchanged); `None`
    /// only when nothing was buffered and nothing more arrived, so no result
    /// is ever dropped here.
    pub fn finish_disconnected(&mut self) -> (r: Option<Ordered<T>>)
        requires
            old(self).wf(),
            old(self).expecting().0.len() < INDEX_PATH_MAX_DEPTH,
        ensures
            final(self).wf(),
            final(self).max_buffered() == old(self).max_buffered(),
            match r {
                Some(o) => {
                    &&& PriorityBuffer::is_top_of(o, final(self).buffered().insert(o))
                    &&& old(self).buffered().subset_of(final(self).buffered().insert(o))
                    &&& if o.index_path@ == old(self).expecting().0 {
                        final(self).expecting() == (if o.child_count == 0
                            && o.index_path@.len() == 0 {
                            old(self).expecting()
                        } else {
                            advance(old(self).expecting().0, old(self).expecting().1, o.child_count)
                        })
                    } else {
                        final(self).expecting() == old(self).expecting()
                    }
                },
                None => {
                    &&& old(self).buffered().len() == 0
                    &&& final(self).buffered().len() == 0
                    &&& final(self).expecting() == old(self).expecting()
                },
            },
    {
        self.drain_channel();
        let ghost drained = self.buffered();
        match self.take_expected() {
            Some(o) => {
                assert(self.buffered().insert(o) =~= drained);
                return Some(o);
            },
            None => {},
        }
        let fallback = self.receive_buffer.pop();
        match fallback {
            Some(o) => {
                assert(self.buffered().insert(o) =~= drained);
                Some(o)
            },
            None => {
                proof {
                    assert forall|x: Ordered<T>| old(self).buffered().count(x) == 0 by {
                        assert(old(self).buffered().count(x) <= drained.count(x));
                    }
                    assert(old(self).buffered() =~= Multiset::<Ordered<T>>::empty());
                }
                None
            },
        }
    }

    /// Releases the top buffered result when it is the expected one, and
    /// moves the expectation past it.
    fn take_expected(&mut self) -> (r: Option<Ordered<T>>)
        requires
            old(self).wf(),
            old(self).expecting().0.len() < INDEX_PATH_MAX_DEPTH,
        ensures
            final(self).wf(),
            final(self).max_buffered() == old(self).max_buffered(),
            match r {
                Some(o) => {
                    &&& PriorityBuffer::is_top_of(o, old(self).buffered())
                    &&& o.index_path@ == old(self).expecting().0
                    &&& final(self).buffered() =~= old(self).buffered().remove(o)
                    &&& final(self).expecting() == (if o.child_count == 0 && o.index_path@.len()
                        == 0 {
                        old(self).expecting()
                    } else {
                        advance(old(self).expecting().0, old(self).expecting().1, o.child_count)
                    })
                },
                None => {
                    &&& final(self).buffered() == old(self).buffered()
                    &&& final(self).expecting() == old(self).expecting()
                    &&& forall|o: Ordered<T>|
                        PriorityBuffer::is_top_of(o, old(self).buffered()) ==> o.index_path@
                            != old(self).expecting().0
                },
            },
    {
        let ghost mut peeked: Option<Ordered<T>> = None;
        let top_matches = match self.receive_buffer.peek() {
            Some(top) => {
                proof {
                    peeked = Some(*top);
                }
                top.index_path.eq(self.ordered_matcher.looking_for())
            },
            None => false,
        };
        if !top_matches {
            proof {
                assert forall|o: Ordered<T>|
                    PriorityBuffer::is_top_of(o, old(self).buffered()) implies o.index_path@
                        != old(self).expecting().0 by {
                    let p = peeked.unwrap();
                    assert(old(self).buffered().count(o) > 0);
                    lemma_rank_order(o.rank(), p.rank(), p.rank());
                }
            }
            return None;
        }
        let ordered = self.receive_buffer.pop().unwrap();
        proof {
            let p = peeked.unwrap();
            lemma_rank_order(ordered.rank(), p.rank(), p.rank());
            assert(ordered.index_path@ == old(self).expecting().0);
        }
        if ordered.child_count > 0 || !self.ordered_matcher.is_none() {
            self.ordered_matcher.advance_past(&ordered);
        }
        Some(ordered)
    }
}

} // verus!
