//! Bounded queues between event producers and the writer thread.
//!
//! What a queue holds changes under the hands of other threads, so nothing here says
//! whether a message is accepted. What was offered, to which queue, and how that queue
//! answered is certain, and only an offer can give the answers that stand for it.

use crossbeam_channel::{Receiver, Sender};
use vstd::prelude::*;

verus! {

/// The sending half of a queue.
#[verifier::external_type_specification]
#[verifier::external_body]
#[verifier::reject_recursive_types(T)]
pub struct ExSender<T>(crossbeam_channel::Sender<T>);

/// The receiving half of a queue.
#[verifier::external_type_specification]
#[verifier::external_body]
#[verifier::reject_recursive_types(T)]
pub struct ExReceiver<T>(crossbeam_channel::Receiver<T>);

/// The sending end of a queue, which knows the capacity that the queue was opened with.
#[verifier::reject_recursive_types(T)]
pub struct QueueTx<T> {
    sender: Sender<Box<T>>,
    capacity: Ghost<usize>,
}

/// The receiving end of a queue, which knows the sending end of the same queue.
#[verifier::reject_recursive_types(T)]
pub struct QueueRx<T> {
    receiver: Receiver<Box<T>>,
    tx: Ghost<QueueTx<T>>,
}

/// The answer of a queue that accepted a message.
#[verifier::reject_recursive_types(T)]
pub struct Receipt<T> {
    message: Ghost<T>,
    tx: Ghost<QueueTx<T>>,
}

/// The answer of a queue that refused a message, with the message.
#[verifier::reject_recursive_types(T)]
pub struct Refusal<T> {
    message: Box<T>,
    tx: Ghost<QueueTx<T>>,
}

impl<T> QueueTx<T> {
    /// The capacity that the queue was opened with.
    pub closed spec fn capacity(self) -> usize {
        self.capacity@
    }
}

impl<T> QueueRx<T> {
    /// The sending end of the same queue.
    pub closed spec fn tx(self) -> QueueTx<T> {
        self.tx@
    }

    /// The receiving half of the queue.
    pub closed spec fn half(self) -> Receiver<Box<T>> {
        self.receiver
    }

    /// The receiving half of the queue.
    pub fn receiver(&self) -> (receiver: &Receiver<Box<T>>)
        ensures
            *receiver == self.half(),
    {
        &self.receiver
    }
}

impl<T> Receipt<T> {
    /// The message that was accepted.
    pub closed spec fn message(self) -> T {
        self.message@
    }

    /// The sending end through which it was offered.
    pub closed spec fn tx(self) -> QueueTx<T> {
        self.tx@
    }
}

impl<T> Refusal<T> {
    /// The message that was refused.
    pub closed spec fn message(self) -> T {
        *self.message
    }

    /// The sending end through which it was offered.
    pub closed spec fn tx(self) -> QueueTx<T> {
        self.tx@
    }

    /// Looks at the message that was refused.
    pub fn refused(&self) -> (message: &T)
        ensures
            *message == self.message(),
    {
        &self.message
    }

    /// Takes the message back.
    pub fn into_message(self) -> (message: T)
        ensures
            message == self.message(),
    {
        *self.message
    }
}

/// The capacities for which the slots of a queue can be indexed and laid out.
pub open spec fn queue_capacity_fits(capacity: usize) -> bool {
    capacity <= usize::MAX / 64
}

/// Whether a queue of this capacity can be indexed and laid out.
pub fn is_queue_capacity_fit(capacity: usize) -> (fits: bool)
    ensures
        fits == queue_capacity_fits(capacity),
{
    capacity <= usize::MAX / 64
}

/// Opens a queue with `crossbeam_channel::bounded`.
///
/// The two ends are those of one queue, which holds at most `capacity` messages. That function
/// panics when the capacity, rounded up to a power of two and doubled, leaves the index type,
/// or when the slots (a stamp and a box each) outgrow the address space. The bound on
/// `capacity` rules both out. Which messages the queue holds at a time is not claimed: that
/// depends on the threads that use it.
#[verifier::external_body]
pub(crate) fn bounded<T>(capacity: usize) -> (ends: (QueueTx<T>, QueueRx<T>))
    requires
        queue_capacity_fits(capacity),
    ensures
        ends.0.capacity() == capacity,
        ends.1.tx() == ends.0,
{
    let (sender, receiver) = crossbeam_channel::bounded(capacity);
    let tx = QueueTx { sender, capacity: Ghost(capacity) };
    let rx = QueueRx { receiver, tx: Ghost(tx) };
    (tx, rx)
}

/// Offers a message to a queue with `crossbeam_channel::Sender::try_send`, which never blocks.
///
/// The answer is of this queue and for this message. A queue that is full, or whose receiver
/// is gone, hands the message back as it was. Whether it is accepted depends on other threads,
/// so that is left open.
#[verifier::external_body]
pub(crate) fn try_send<T>(tx: &QueueTx<T>, message: Box<T>) -> (answer: Result<
    Receipt<T>,
    Refusal<T>,
>)
    ensures
        match answer {
            Ok(receipt) => receipt.message() == *message && receipt.tx() == *tx,
            Err(refusal) => refusal.message() == *message && refusal.tx() == *tx,
        },
{
    let receipt = Receipt { message: Ghost(*message), tx: Ghost(*tx) };
    match tx.sender.try_send(message) {
        Ok(()) => Ok(receipt),
        Err(refused) => Err(Refusal { message: refused.into_inner(), tx: Ghost(*tx) }),
    }
}

}
