//! Channels between publishers and subscribers.
//!
//! A channel is a bounded queue, so that a slow receiver holds its senders back. What other
//! tasks do with a channel is not known here: a function that asks a channel promises only
//! what holds whatever the channel answers, and a second function says what follows from
//! each answer.

use tokio::sync::mpsc;
use tokio::sync::oneshot;
use vstd::prelude::*;

use super::raw::{
    message_capacity, message_limit, message_max_capacity, message_queue, message_receiver,
    queue_bound, queue_is_closed, queue_try_recv, queue_try_send, reply_channel, reply_receiver,
    request_capacity, request_limit, request_max_capacity, request_queue, request_receiver,
};
use crate::protocol::Message;

verus! {

// ---------------------------------------------------------------------------------------
// Errors
// ---------------------------------------------------------------------------------------

/// The channel is closed; the value was not sent.
#[derive(Debug)]
pub struct SendError<T>(pub T);

/// Why a value was not sent at once; it is handed back.
#[derive(Debug)]
pub enum TrySendError<T> {
    /// The queue is full.
    Full(T),
    /// The receiving side is gone.
    Disconnected(T),
}

impl<T> TrySendError<T> {
    /// The value that was not sent.
    pub open spec fn value(self) -> T {
        match self {
            TrySendError::Full(v) => v,
            TrySendError::Disconnected(v) => v,
        }
    }
}

/// Why no value was received at once.
#[derive(Debug, Clone, Copy, PartialEq, Eq, Structural)]
pub enum TryRecvError {
    /// The queue is empty.
    Empty,
    /// The sending side is gone.
    Disconnected,
}

/// Why no value was received in time.
#[derive(Debug, Clone, Copy, PartialEq, Eq, Structural)]
pub enum RecvTimeoutError {
    /// The sending side is gone.
    Disconnected,
    /// The time is over.
    Timeout,
}

/// Why a request could not be queued at once.
#[derive(Debug, Clone, Copy, PartialEq, Eq, Structural)]
pub enum TryRequestError {
    /// The request queue is full.
    Full,
    /// The receiving side is gone.
    Disconnected,
}

// ---------------------------------------------------------------------------------------
// Load
// ---------------------------------------------------------------------------------------

/// How full a channel is.
#[derive(Debug, Clone, Copy, PartialEq, Eq, Structural)]
pub struct ChannelLoad {
    /// The free places.
    pub capacity: usize,
    /// All places.
    pub max_capacity: usize,
}

impl ChannelLoad {
    /// How many messages wait in the channel.
    pub open spec fn pending(self) -> int {
        if self.capacity <= self.max_capacity {
            self.max_capacity - self.capacity
        } else {
            0
        }
    }

    /// How many messages wait in the channel: the places that are not free.
    pub fn pending_messages(&self) -> (r: usize)
        ensures
            r == self.pending(),
    {
        self.max_capacity.saturating_sub(self.capacity)
    }
}

// ---------------------------------------------------------------------------------------
// Sender and receiver
// ---------------------------------------------------------------------------------------

/// The sending side of a channel.
#[verifier::reject_recursive_types(T)]
pub struct Sender<T> {
    /// The queue.
    pub inner: mpsc::Sender<T>,
}

impl<T> Sender<T> {
    /// The sending side of a queue.
    pub fn new(inner: mpsc::Sender<T>) -> (r: Self)
        ensures
            r.inner == inner,
    {
        Sender { inner }
    }

    /// Whether this is an answer that the queue gave when `msg` was to be queued.
    pub closed spec fn answers(self, msg: T, answer: Result<(), TrySendError<T>>) -> bool {
        call_ensures(queue_try_send::<T>, (&self.inner, msg), answer)
    }

    /// Whether this is an answer that the queue gave when it was asked whether its receiving
    /// side is gone.
    pub closed spec fn reports(self, closed: bool) -> bool {
        call_ensures(queue_is_closed::<T>, (&self.inner,), closed)
    }

    /// Queues a value without waiting. A value that is not queued is handed back. Whether it
    /// is queued depends on the receiving side: the result is the answer of the queue.
    pub fn try_send(&self, msg: T) -> (r: Result<(), TrySendError<T>>)
        ensures
            r matches Err(e) ==> e.value() == msg,
            self.answers(msg, r),
    {
        queue_try_send(&self.inner, msg)
    }

    /// Whether the receiving side is gone at this moment, which depends on other tasks: the
    /// result is the answer of the queue.
    pub fn is_closed(&self) -> (r: bool)
        ensures
            self.reports(r),
    {
        queue_is_closed(&self.inner)
    }
}

/// The receiving side of a channel.
#[verifier::reject_recursive_types(T)]
pub struct Receiver<T> {
    /// The queue.
    pub inner: mpsc::Receiver<T>,
}

impl<T> Receiver<T> {
    /// The receiving side of a queue.
    pub fn new(inner: mpsc::Receiver<T>) -> (r: Self)
        ensures
            r.inner == inner,
    {
        Receiver { inner }
    }

    /// Whether this is an answer that the queue gave when it was asked for its next value.
    pub closed spec fn gave(
        queue: &mut mpsc::Receiver<T>,
        answer: Result<T, TryRecvError>,
    ) -> bool {
        call_ensures(queue_try_recv::<T>, (queue,), answer)
    }

    /// Takes the next value without waiting. Which one that is, and whether there is one,
    /// depends on the senders: the result is the answer of the queue, which is asked once.
    pub fn try_recv(&mut self) -> (r: Result<T, TryRecvError>)
        ensures
            exists|queue: &mut mpsc::Receiver<T>|
                *queue == old(self).inner && *final(queue) == final(self).inner
                    && #[trigger] Receiver::gave(queue, r),
    {
        let r = queue_try_recv(&mut self.inner);
        assert(forall|queue: &mut mpsc::Receiver<T>| #[trigger]
            call_ensures(queue_try_recv::<T>, (queue,), r) ==> Receiver::gave(queue, r));
        r
    }
}

/// What came of waiting for something for a limited time.
pub enum Wait<T> {
    /// It came.
    Done(T),
    /// The time is over.
    Elapsed,
}

/// What a receiver that waited for a value for a limited time returns: the value, or that
/// the sending side is gone, or that the time is over.
pub fn recv_outcome<T>(waited: Wait<Option<T>>) -> (r: Result<T, RecvTimeoutError>)
    ensures
        match waited {
            Wait::Done(Some(value)) => r == Ok::<T, RecvTimeoutError>(value),
            Wait::Done(None) => r == Err::<T, RecvTimeoutError>(RecvTimeoutError::Disconnected),
            Wait::Elapsed => r == Err::<T, RecvTimeoutError>(RecvTimeoutError::Timeout),
        },
{
    match waited {
        Wait::Done(Some(value)) => Ok(value),
        Wait::Done(None) => Err(RecvTimeoutError::Disconnected),
        Wait::Elapsed => Err(RecvTimeoutError::Timeout),
    }
}

// ---------------------------------------------------------------------------------------
// Messages and requests
// ---------------------------------------------------------------------------------------

/// The sending side of a message channel.
pub type MessageSender = Sender<Message>;

/// The receiving side of a message channel.
pub type MessageReceiver = Receiver<Message>;

/// A request for one message: where the message is to be sent.
pub type RequestToken = oneshot::Sender<Message>;

/// The sending side of a request channel.
pub type RequestSender = Sender<RequestToken>;

/// The receiving side of a request channel.
pub type RequestReceiver = Receiver<RequestToken>;

impl Sender<Message> {
    /// The number of messages that the channel was made for.
    pub open spec fn limit(self) -> usize {
        message_limit(self.inner)
    }

    /// Whether this is a number of free places that the queue gave when it was asked.
    pub closed spec fn counts(self, free: usize) -> bool {
        call_ensures(message_capacity, (&self.inner,), free)
    }

    /// The receiving side that was made together with this sending side.
    pub open spec fn receiver(self) -> MessageReceiver {
        Receiver { inner: message_receiver(self.inner) }
    }

    /// How full the channel is.
    pub fn load(&self) -> (r: ChannelLoad)
        ensures
            r.max_capacity == self.limit(),
            r.capacity <= r.max_capacity,
            self.counts(r.capacity),
    {
        ChannelLoad {
            capacity: message_capacity(&self.inner),
            max_capacity: message_max_capacity(&self.inner),
        }
    }
}

/// Makes a request for one message: the token to queue, and where the message will come, which
/// is the receiving side that belongs to the token.
pub fn new_request() -> (r: (RequestToken, oneshot::Receiver<Message>))
    ensures
        r.1 == reply_receiver(r.0),
{
    reply_channel()
}

/// What a request that was to be queued at once comes to: the place `reply` where the message
/// will come, or why there will be none. `sent` is what came of queueing its token, `None` if
/// that was not tried as the receiving side of the request channel is gone.
pub fn request_outcome<R>(
    reply: R,
    sent: Option<Result<(), TrySendError<RequestToken>>>,
) -> (r: Result<R, TryRequestError>)
    ensures
        match sent {
            Some(Ok(())) => r == Ok::<R, TryRequestError>(reply),
            Some(Err(TrySendError::Full(_))) => r == Err::<R, TryRequestError>(
                TryRequestError::Full,
            ),
            Some(Err(TrySendError::Disconnected(_))) => r == Err::<R, TryRequestError>(
                TryRequestError::Disconnected,
            ),
            None => r == Err::<R, TryRequestError>(TryRequestError::Disconnected),
        },
{
    match sent {
        Some(Ok(())) => Ok(reply),
        Some(Err(TrySendError::Full(_))) => Err(TryRequestError::Full),
        Some(Err(TrySendError::Disconnected(_))) => Err(TryRequestError::Disconnected),
        None => Err(TryRequestError::Disconnected),
    }
}

impl Sender<RequestToken> {
    /// The number of requests that the channel was made for.
    pub open spec fn limit(self) -> usize {
        request_limit(self.inner)
    }

    /// Whether this is a number of free places that the queue gave when it was asked.
    pub closed spec fn counts(self, free: usize) -> bool {
        call_ensures(request_capacity, (&self.inner,), free)
    }

    /// The receiving side that was made together with this sending side.
    pub open spec fn receiver(self) -> RequestReceiver {
        Receiver { inner: request_receiver(self.inner) }
    }

    /// How full the channel is.
    pub fn load(&self) -> (r: ChannelLoad)
        ensures
            r.max_capacity == self.limit(),
            r.capacity <= r.max_capacity,
            self.counts(r.capacity),
    {
        ChannelLoad {
            capacity: request_capacity(&self.inner),
            max_capacity: request_max_capacity(&self.inner),
        }
    }

    /// Queues a request for one message without waiting, and returns where the message will
    /// come: the receiving side that belongs to the token of the request. Whether the request
    /// is queued depends on the receiving side of the request channel; `request_outcome` says
    /// what follows from that.
    pub fn try_request(&self) -> (r: Result<oneshot::Receiver<Message>, TryRequestError>)
        ensures
            r matches Ok(reply) ==> exists|token: RequestToken|
                reply == #[trigger] reply_receiver(token),
            match r {
                Ok(reply) => exists|token: RequestToken|
                    reply == #[trigger] reply_receiver(token) && self.answers(token, Ok(())),
                Err(TryRequestError::Full) => exists|token: RequestToken| #[trigger]
                    self.answers(token, Err(TrySendError::Full(token))),
                Err(TryRequestError::Disconnected) => self.reports(true)
                    || exists|token: RequestToken| #[trigger]
                    self.answers(token, Err(TrySendError::Disconnected(token))),
            },
    {
        let (token, reply) = new_request();
        assert(reply == reply_receiver(token));
        let ghost asked = token;
        let sent = if self.is_closed() {
            None
        } else {
            Some(self.try_send(token))
        };
        assert(sent matches Some(answer) ==> self.answers(asked, answer));
        assert(sent matches Some(Ok(done)) ==> self.answers(asked, Ok(())) && done == ());
        request_outcome(reply, sent)
    }
}

/// Makes a message channel for `capacity` messages.
pub fn create_channel(capacity: usize) -> (r: (MessageSender, MessageReceiver))
    requires
        0 < capacity <= queue_bound(),
    ensures
        r.0.limit() == capacity,
        r.1 == r.0.receiver(),
{
    let (tx, rx) = message_queue(capacity);
    (Sender::new(tx), Receiver::new(rx))
}

/// Makes a request channel for `capacity` requests.
pub fn create_request_channel(capacity: usize) -> (r: (RequestSender, RequestReceiver))
    requires
        0 < capacity <= queue_bound(),
    ensures
        r.0.limit() == capacity,
        r.1 == r.0.receiver(),
{
    let (tx, rx) = request_queue(capacity);
    (Sender::new(tx), Receiver::new(rx))
}

// ---------------------------------------------------------------------------------------
// What is behind an answer
// ---------------------------------------------------------------------------------------

/// What a sender is said to have answered is what its queue returned when it was called.
pub(crate) proof fn law_answers_of_a_sender<T>(
    sender: Sender<T>,
    value: T,
    answer: Result<(), TrySendError<T>>,
    closed: bool,
)
    ensures
        sender.answers(value, answer) ==> call_ensures(
            queue_try_send::<T>,
            (&sender.inner, value),
            answer,
        ),
        sender.reports(closed) ==> call_ensures(queue_is_closed::<T>, (&sender.inner,), closed),
{
}

/// What the queue of a receiver is said to have given is what it returned when it was called.
pub(crate) proof fn law_answers_of_a_receiver<T>(
    queue: &mut mpsc::Receiver<T>,
    answer: Result<T, TryRecvError>,
)
    ensures
        Receiver::gave(queue, answer) ==> call_ensures(queue_try_recv::<T>, (queue,), answer),
{
}

/// How many places are said to be free is what the queue returned when it was called.
pub(crate) proof fn law_counted_places(
    messages: MessageSender,
    requests: RequestSender,
    free: usize,
)
    ensures
        messages.counts(free) ==> call_ensures(message_capacity, (&messages.inner,), free),
        requests.counts(free) ==> call_ensures(request_capacity, (&requests.inner,), free),
{
}

} // verus!
