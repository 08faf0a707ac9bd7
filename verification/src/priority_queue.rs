//! Work queue of the parallel walk: producers send weighted directory specs
//! over a bounded channel; the consumer side buffers them and hands out the
//! highest-weighted first. A shared pending count tells the consumer when no
//! work can arrive any more.

use crate::channel::{
    arc_clone, channel_bounded, channel_send, channel_try_recv, sender_clone, QueuePoll,
};
use crate::priority_buffer::PriorityBuffer;
use crate::weighted::Weighted;
use crossbeam::channel::{Receiver, SendError, Sender};
use std::sync::atomic::{AtomicBool, AtomicUsize};
use std::sync::Arc;
use vstd::multiset::Multiset;
use vstd::prelude::*;

verus! {

/// Capacity of the channel: large enough that producers practically never
/// block (512 Ki small entries).
pub const CHANNEL_CAPACITY: usize = 524288;

/// Initial capacity of the consumer's buffer.
pub const INITIAL_HEAP_CAPACITY: usize = 256;

/// Producer side.
#[verifier::reject_recursive_types(T)]
pub struct PriorityQueue<T: Send> {
    sender: Sender<Weighted<T>>,
    pending_count: Arc<AtomicUsize>,
    stop: Arc<AtomicBool>,
}

/// Consumer side.
#[verifier::reject_recursive_types(T)]
pub struct PriorityQueueIter<T: Send> {
    stop: Arc<AtomicBool>,
    receiver: Receiver<Weighted<T>>,
    receive_buffer: PriorityBuffer<Weighted<T>>,
    pending_count: Arc<AtomicUsize>,
}

/// A connected producer and consumer, sharing `stop` and a pending count that
/// starts at zero.
pub fn new_priority_queue<T: Send>(stop: Arc<AtomicBool>) -> (r: (
    PriorityQueue<T>,
    PriorityQueueIter<T>,
))
    ensures
        r.1.buffered() =~= Multiset::<Weighted<T>>::empty(),
{
    let pending_count = Arc::new(AtomicUsize::new(0));
    let (sender, receiver) = channel_bounded(CHANNEL_CAPACITY);
    (
        PriorityQueue { sender, pending_count: pending_count.clone(), stop: stop.clone() },
        PriorityQueueIter {
            receiver,
            receive_buffer: PriorityBuffer::with_capacity(INITIAL_HEAP_CAPACITY),
            pending_count,
            stop,
        },
    )
}

impl<T: Send> PriorityQueue<T> {
    /// Sends `weighted`, blocking while the channel is full, so that no
    /// scheduled directory is dropped; counts it as pending once sent.
    pub fn push(&self, weighted: Weighted<T>) -> Result<(), SendError<Weighted<T>>> {
        let result = channel_send(&self.sender, weighted);
        if result.is_ok() {
            self.pending_count.fetch_add(1, std::sync::atomic::Ordering::Release);
        }
        result
    }

    /// One pending item was fully processed.
    pub fn complete_item(&self) {
        self.pending_count.fetch_sub(1, std::sync::atomic::Ordering::AcqRel);
    }

    /// Another producer handle on the same channel, the same pending count
    /// and the same stop flag: a handle equal to this one.
    pub fn clone(&self) -> (r: Self)
        ensures
            r == *self,
    {
        PriorityQueue {
            sender: sender_clone(&self.sender),
            pending_count: arc_clone(&self.pending_count),
            stop: arc_clone(&self.stop),
        }
    }
}

impl<T: Send> PriorityQueueIter<T> {
    /// The items received and not handed out yet.
    pub closed spec fn buffered(&self) -> Multiset<Weighted<T>> {
        self.receive_buffer.contents()
    }

    /// The number of items sent and not yet completed.
    pub fn pending_count(&self) -> usize {
        self.pending_count.load(std::sync::atomic::Ordering::Acquire)
    }

    /// Whether the walk was told to stop.
    pub fn is_stop(&self) -> bool {
        self.stop.load(std::sync::atomic::Ordering::Acquire)
    }

    /// The consumer's end of the channel.
    pub closed spec fn channel(&self) -> Receiver<Weighted<T>> {
        self.receiver
    }

    /// The consumer's end of the channel (the one `drain_channel` reads),
    /// for a blocking receive with a timeout.
    pub fn receiver(&self) -> (r: &Receiver<Weighted<T>>)
        ensures
            *r == self.channel(),
    {
        &self.receiver
    }

    /// Buffers an item received from the channel.
    pub fn accept(&mut self, weighted: Weighted<T>)
        ensures
            final(self).buffered() =~= old(self).buffered().insert(weighted),
    {
        self.receive_buffer.push(weighted);
    }

    /// Moves every ready message from the channel into the buffer and
    /// returns how many it moved. (It also stops after `usize::MAX` messages,
    /// a count that memory rules out.)
    pub fn drain_channel(&mut self) -> (received: usize)
        ensures
            old(self).buffered().subset_of(final(self).buffered()),
            final(self).buffered().len() == old(self).buffered().len() + received,
    {
        let mut received: usize = 0;
        while received < usize::MAX
            invariant
                old(self).buffered().subset_of(self.buffered()),
                self.buffered().len() == old(self).buffered().len() + received,
            decreases usize::MAX - received,
        {
            match channel_try_recv(&self.receiver) {
                Ok(weighted) => {
                    self.receive_buffer.push(weighted);
                    received = received + 1;
                },
                Err(_) => {
                    break;
                },
            }
        }
        received
    }

    /// One non-blocking step of the consumer, after the ready messages were
    /// moved into the buffer: reads the stop flag and the pending count, then
    /// takes the step that `poll_given_stop` describes for what it read.
    pub fn poll(&mut self) -> (r: QueuePoll<Weighted<T>>)
        ensures
            match r {
                QueuePoll::Ready(w) => PriorityBuffer::is_top_of(w, old(self).buffered())
                    && final(self).buffered() =~= old(self).buffered().remove(w),
                QueuePoll::Empty => old(self).buffered().len() == 0 && final(self).buffered()
                    == old(self).buffered(),
                QueuePoll::Disconnected => final(self).buffered() == old(self).buffered(),
            },
    {
        let stopped = self.is_stop();
        let pending = self.pending_count();
        self.poll_given_stop(stopped, pending)
    }

    /// The step of the consumer once the stop flag was read as `stopped` and
    /// the pending count as `pending`: `Disconnected` when the walk was
    /// stopped; otherwise the highest-weighted buffered item; with nothing
    /// buffered, `Disconnected` when nothing is pending any more, else `Empty`
    /// (wait for the channel and poll again).
    pub fn poll_given_stop(&mut self, stopped: bool, pending: usize) -> (r: QueuePoll<Weighted<T>>)
        ensures
            stopped ==> r is Disconnected && final(self).buffered() == old(self).buffered(),
            !stopped && old(self).buffered().len() > 0 ==> (r matches QueuePoll::Ready(w)
                && PriorityBuffer::is_top_of(w, old(self).buffered()) && final(self).buffered()
                =~= old(self).buffered().remove(w)),
            !stopped && old(self).buffered().len() == 0 ==> (r is Disconnected <==> pending == 0)
                && (r is Empty <==> pending > 0) && final(self).buffered() == old(self).buffered(),
    {
        if stopped {
            return QueuePoll::Disconnected;
        }
        match self.receive_buffer.pop() {
            Some(weighted) => QueuePoll::Ready(weighted),
            None => {
                if pending == 0 {
                    QueuePoll::Disconnected
                } else {
                    QueuePoll::Empty
                }
            },
        }
    }
}

/// How long the consumer waits on the channel after `spin_count` empty
/// polls in a row: 10 µs for the first eleven, 100 µs up to fifty, then
/// 1 ms, so that an idle consumer does not spin.
pub fn backoff_micros(spin_count: u32) -> (us: u64)
    ensures
        us == (if spin_count <= 10 {
            10u64
        } else if spin_count <= 50 {
            100u64
        } else {
            1000u64
        }),
{
    if spin_count <= 10 {
        10
    } else if spin_count <= 50 {
        100
    } else {
        1000
    }
}

} // verus!
