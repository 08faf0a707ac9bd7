//! The crossbeam channel operations the queues use: a bounded channel, a
//! blocking send, a non-blocking receive and sender cloning; and the cloning
//! of the shared flags and counters.

use crossbeam::channel::{bounded, Receiver, SendError, Sender, TryRecvError};
use std::sync::Arc;
use vstd::prelude::*;

verus! {

#[verifier::external_type_specification]
#[verifier::external_body]
#[verifier::reject_recursive_types(T)]
pub struct ExSender<T>(Sender<T>);

#[verifier::external_type_specification]
#[verifier::external_body]
#[verifier::reject_recursive_types(T)]
pub struct ExReceiver<T>(Receiver<T>);

#[verifier::external_type_specification]
#[verifier::external_body]
#[verifier::reject_recursive_types(T)]
pub struct ExSendError<T>(SendError<T>);

/// Largest capacity for which creating a bounded channel is free of the
/// capacity-overflow panics in its index arithmetic, on 32-bit and 64-bit
/// targets.
pub const MAX_CHANNEL_CAPACITY: usize = 0x2000_0000;

/// Why a non-blocking receive returned nothing.
#[derive(Debug, Clone, Copy, PartialEq, Eq, Structural)]
pub enum RecvFailure {
    /// No message is ready now.
    Empty,
    /// No message is ready and every sender is gone.
    Disconnected,
}

/// `crossbeam::channel::bounded`: a channel holding at most `cap` messages
/// (a rendezvous channel for `cap == 0`). The buffer of `cap` slots must also
/// fit in memory, which this contract does not state.
#[verifier::external_body]
pub(crate) fn channel_bounded<T>(cap: usize) -> (Sender<T>, Receiver<T>)
    requires
        cap <= MAX_CHANNEL_CAPACITY,
{
    bounded(cap)
}

/// `Sender::send`: blocks until the message is queued, or fails when every
/// receiver is gone. Which of the two happens depends on other threads.
#[verifier::external_body]
pub(crate) fn channel_send<T>(sender: &Sender<T>, msg: T) -> Result<(), SendError<T>> {
    sender.send(msg)
}

/// `<Sender as Clone>::clone`: another handle on the same channel. It
/// counts one more sender on the channel and holds the same channel pointer
/// and flavor, so the handle it returns is equal to `sender`.
#[verifier::external_body]
pub(crate) fn sender_clone<T>(sender: &Sender<T>) -> (r: Sender<T>)
    ensures
        r == *sender,
{
    sender.clone()
}

/// `<Arc as Clone>::clone`: another pointer to the same allocation, so it
/// points to the same value.
#[verifier::external_body]
pub(crate) fn arc_clone<T>(a: &Arc<T>) -> (r: Arc<T>)
    ensures
        r == *a,
{
    a.clone()
}

/// `Receiver::try_recv`: a ready message, or why there is none. What is
/// ready depends on other threads.
#[verifier::external_body]
pub(crate) fn channel_try_recv<T>(receiver: &Receiver<T>) -> Result<T, RecvFailure> {
    match receiver.try_recv() {
        Ok(msg) => Ok(msg),
        Err(TryRecvError::Empty) => Err(RecvFailure::Empty),
        Err(TryRecvError::Disconnected) => Err(RecvFailure::Disconnected),
    }
}

/// Outcome of one non-blocking step of a queue iterator.
pub enum QueuePoll<T> {
    /// The next item.
    Ready(T),
    /// Nothing to hand out yet: wait for the channel, then poll again.
    Empty,
    /// The walk is over (stopped, or nothing left to come).
    Disconnected,
}

} // verus!
