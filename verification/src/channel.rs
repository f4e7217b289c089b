//! The bounded queues between the tasks of a connection, as far as the
//! engine touches them: a non-blocking receive on the two outbound queues and
//! a non-blocking send into an application's inbound queue.
//!
//! Nothing in this file is proved: it states what the queue implementation is
//! taken to do.

use crate::message::NetworkMessage;
use tokio::sync::mpsc::error::{TryRecvError, TrySendError};
use tokio::sync::mpsc::{Receiver, Sender};
use vstd::prelude::*;

verus! {

/// The receiving half of a bounded queue; its contents are not modelled.
#[verifier::external_type_specification]
#[verifier::external_body]
#[verifier::reject_recursive_types(T)]
pub struct ExReceiver<T>(Receiver<T>);

/// The sending half of a bounded queue; its contents are not modelled.
#[verifier::external_type_specification]
#[verifier::external_body]
#[verifier::reject_recursive_types(T)]
pub struct ExSender<T>(Sender<T>);

/// What a non-blocking receive found.
#[derive(Debug)]
pub enum QueuePoll {
    /// The oldest message that was waiting.
    Message(NetworkMessage),
    /// Nothing is waiting, but a producer is still there.
    Empty,
    /// Nothing is waiting and every producer is gone.
    Closed,
}

/// What a non-blocking receive found, as a mathematical value.
pub enum PollView {
    Message(crate::message::MessageView),
    Empty,
    Closed,
}

impl View for QueuePoll {
    type V = PollView;

    open spec fn view(&self) -> PollView {
        match self {
            QueuePoll::Message(message) => PollView::Message(message@),
            QueuePoll::Empty => PollView::Empty,
            QueuePoll::Closed => PollView::Closed,
        }
    }
}

/// What a non-blocking send did.
#[derive(Clone, Copy, Debug, PartialEq, Eq, Structural)]
pub enum SendOutcome {
    /// The message is in the queue.
    Queued,
    /// The queue was at capacity; the message is gone.
    Full,
    /// The consumer is gone; the message is gone.
    Closed,
}

/// Calls `Receiver::try_recv` and reports its three outcomes one for one.
/// Which of them comes back depends on what the producers did, so nothing is
/// claimed of the result.
#[verifier::external_body]
pub(crate) fn try_recv(queue: &mut Receiver<NetworkMessage>) -> (polled: QueuePoll) {
    match queue.try_recv() {
        Ok(message) => QueuePoll::Message(message),
        Err(TryRecvError::Empty) => QueuePoll::Empty,
        Err(TryRecvError::Disconnected) => QueuePoll::Closed,
    }
}

/// Calls `Sender::try_send` and reports its three outcomes one for one; the
/// message that an error hands back is dropped. Which of them comes back
/// depends on the consumer, so nothing is claimed of the result.
#[verifier::external_body]
pub(crate) fn try_send<T>(queue: &Sender<T>, message: T) -> (outcome: SendOutcome) {
    match queue.try_send(message) {
        Ok(()) => SendOutcome::Queued,
        Err(TrySendError::Full(_)) => SendOutcome::Full,
        Err(TrySendError::Closed(_)) => SendOutcome::Closed,
    }
}

} // verus!
