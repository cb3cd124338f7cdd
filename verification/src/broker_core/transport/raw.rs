//! The tokio channels that messages and requests travel through.
//!
//! What is in a channel at some moment depends on the tasks on both sides of it, so nothing is
//! stated of which value is received, nor of whether one can be sent.

use tokio::sync::mpsc;
use tokio::sync::mpsc::{Receiver as QueueReceiver, Sender as QueueSender};
use tokio::sync::oneshot;
use tokio::sync::oneshot::{Receiver as ReplyReceiver, Sender as ReplySender};
use vstd::prelude::*;

use super::channel::{RequestToken, TryRecvError, TrySendError};
use crate::protocol::Message;

verus! {

/// The sending side of a bounded queue.
#[verifier::external_type_specification]
#[verifier::external_body]
#[verifier::reject_recursive_types(T)]
pub struct ExMpscSender<T>(QueueSender<T>);

/// The receiving side of a bounded queue.
#[verifier::external_type_specification]
#[verifier::external_body]
#[verifier::reject_recursive_types(T)]
pub struct ExMpscReceiver<T>(QueueReceiver<T>);

/// The sending side of a channel for one value.
#[verifier::external_type_specification]
#[verifier::external_body]
#[verifier::reject_recursive_types(T)]
pub struct ExOneshotSender<T>(ReplySender<T>);

/// The receiving side of a channel for one value.
#[verifier::external_type_specification]
#[verifier::external_body]
#[verifier::reject_recursive_types(T)]
pub struct ExOneshotReceiver<T>(ReplyReceiver<T>);

/// That the sending side of a channel for one value is gone.
#[verifier::external_type_specification]
#[verifier::external_body]
pub struct ExRecvError(tokio::sync::oneshot::error::RecvError);

/// The number of messages that a message queue was made for.
pub uninterp spec fn message_limit(tx: mpsc::Sender<Message>) -> usize;

/// The number of requests that a request queue was made for.
pub uninterp spec fn request_limit(tx: mpsc::Sender<RequestToken>) -> usize;

/// The receiving side that was made together with this sending side of a message queue.
pub uninterp spec fn message_receiver(tx: mpsc::Sender<Message>) -> mpsc::Receiver<Message>;

/// The receiving side that was made together with this sending side of a request queue.
pub uninterp spec fn request_receiver(tx: mpsc::Sender<RequestToken>) -> mpsc::Receiver<RequestToken>;

/// The receiving side that was made together with this sending side of a channel for one
/// message.
pub uninterp spec fn reply_receiver(tx: oneshot::Sender<Message>) -> oneshot::Receiver<Message>;

/// The largest queue that can be made.
pub open spec fn queue_bound() -> int {
    usize::MAX as int / 8
}

/// Calls `mpsc::channel` for messages, which makes the two sides of a queue for
/// `capacity` messages. It fails
/// on a capacity of zero and on one over `usize::MAX >> 3`.
#[verifier::external_body]
pub(crate) fn message_queue(capacity: usize) -> (r: (
    mpsc::Sender<Message>,
    mpsc::Receiver<Message>,
))
    requires
        0 < capacity <= queue_bound(),
    ensures
        message_limit(r.0) == capacity,
        r.1 == message_receiver(r.0),
{
    mpsc::channel(capacity)
}

/// Calls `mpsc::channel` for requests, which makes the two sides of a queue for
/// `capacity` requests. It fails
/// on a capacity of zero and on one over `usize::MAX >> 3`.
#[verifier::external_body]
pub(crate) fn request_queue(capacity: usize) -> (r: (
    mpsc::Sender<RequestToken>,
    mpsc::Receiver<RequestToken>,
))
    requires
        0 < capacity <= queue_bound(),
    ensures
        request_limit(r.0) == capacity,
        r.1 == request_receiver(r.0),
{
    mpsc::channel(capacity)
}

/// Calls `mpsc::Sender::max_capacity` of a message queue, which gives the capacity that the
/// queue was made with.
#[verifier::external_body]
pub(crate) fn message_max_capacity(tx: &mpsc::Sender<Message>) -> (r: usize)
    ensures
        r == message_limit(*tx),
{
    tx.max_capacity()
}

/// Calls `mpsc::Sender::max_capacity` of a request queue, which gives the capacity that the
/// queue was made with.
#[verifier::external_body]
pub(crate) fn request_max_capacity(tx: &mpsc::Sender<RequestToken>) -> (r: usize)
    ensures
        r == request_limit(*tx),
{
    tx.max_capacity()
}

/// Calls `mpsc::Sender::capacity` of a message queue, which counts its free places at this
/// moment, at most as many as it was made with.
#[verifier::external_body]
pub(crate) fn message_capacity(tx: &mpsc::Sender<Message>) -> (r: usize)
    ensures
        r <= message_limit(*tx),
{
    tx.capacity()
}

/// Calls `mpsc::Sender::capacity` of a request queue, which counts its free places at this
/// moment, at most as many as it was made with.
#[verifier::external_body]
pub(crate) fn request_capacity(tx: &mpsc::Sender<RequestToken>) -> (r: usize)
    ensures
        r <= request_limit(*tx),
{
    tx.capacity()
}

/// Calls `mpsc::Sender::is_closed`, which tells whether the receiving side is gone at this
/// moment. Nothing is stated of the answer.
#[verifier::external_body]
pub(crate) fn queue_is_closed<T>(tx: &mpsc::Sender<T>) -> bool {
    tx.is_closed()
}

/// Calls `mpsc::Sender::try_send`, which queues the value or hands it back: the queue is
/// full, or the receiving side is gone. Which of these happens depends on the other side.
#[verifier::external_body]
pub(crate) fn queue_try_send<T>(tx: &mpsc::Sender<T>, value: T) -> (r: Result<(), TrySendError<T>>)
    ensures
        r matches Err(e) ==> e.value() == value,
{
    match tx.try_send(value) {
        Ok(()) => Ok(()),
        Err(mpsc::error::TrySendError::Full(v)) => Err(TrySendError::Full(v)),
        Err(mpsc::error::TrySendError::Closed(v)) => Err(TrySendError::Disconnected(v)),
    }
}

/// Calls `mpsc::Receiver::try_recv`, which takes the next value, if there is one at this
/// moment. Which value that is depends on the senders, and nothing is stated of it.
#[verifier::external_body]
pub(crate) fn queue_try_recv<T>(rx: &mut mpsc::Receiver<T>) -> Result<T, TryRecvError> {
    match rx.try_recv() {
        Ok(v) => Ok(v),
        Err(mpsc::error::TryRecvError::Empty) => Err(TryRecvError::Empty),
        Err(mpsc::error::TryRecvError::Disconnected) => Err(TryRecvError::Disconnected),
    }
}

/// Calls `oneshot::channel`, which makes the two sides of a channel for one message.
#[verifier::external_body]
pub(crate) fn reply_channel() -> (r: (oneshot::Sender<Message>, oneshot::Receiver<Message>))
    ensures
        r.1 == reply_receiver(r.0),
{
    oneshot::channel()
}

} // verus!
