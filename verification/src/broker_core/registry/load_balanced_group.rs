//! Groups of consumers that share the messages to one address.
//!
//! A group has one message queue. Its consumers ask for messages one at a time, and the
//! dispatcher of the group hands each message to one of them.

use std::collections::HashMap;
use std::sync::Arc;
use vstd::prelude::*;

use super::slot::{next_version, remove_slot_in, slot_removed, SubscriptionSlot};
use crate::broker_core::transport::channel::{
    create_request_channel, MessageReceiver, RequestReceiver, RequestSender, RequestToken,
};
use crate::broker_core::transport::raw::queue_bound;
use crate::protocol::Message;

verus! {

broadcast use vstd::std_specs::hash::group_hash_axioms;

/// Calls `Arc::clone`, which gives another handle on the same value.
#[verifier::external_body]
pub(crate) fn share(handle: &Arc<RequestSender>) -> (r: Arc<RequestSender>)
    ensures
        r == *handle,
{
    handle.clone()
}

/// Calls `Arc::strong_count`, which counts the handles on the value at this moment, the given
/// one included.
#[verifier::external_body]
pub(crate) fn handle_count(handle: &Arc<RequestSender>) -> (r: usize)
    ensures
        r >= 1,
{
    Arc::strong_count(handle)
}

/// A group of consumers.
pub struct LoadBalancedGroup {
    /// The slot that the messages of the group are sent to.
    pub slot: u64,
    /// Whether the dispatcher of the group was started and not stopped.
    pub dispatcher_running: bool,
    /// A number that shutting the group down moves on.
    pub version: u64,
    /// The request channel. The group has a handle on it itself, so that it stays open; every
    /// consumer has one more.
    pub req_tx: Arc<RequestSender>,
    /// The address of the group.
    pub address: String,
    /// How many consumers have joined and not left.
    pub active_consumers: usize,
}

/// What the dispatcher of a group needs.
pub struct Dispatcher {
    /// Where the requests of the consumers come in.
    pub requests: RequestReceiver,
    /// Where the messages to the group come in.
    pub messages: MessageReceiver,
    /// The slot of the group.
    pub slot: u64,
    /// The address of the group.
    pub address: String,
}

impl LoadBalancedGroup {
    /// The group with one more consumer.
    pub open spec fn joined(self) -> LoadBalancedGroup {
        LoadBalancedGroup {
            active_consumers: if self.active_consumers == usize::MAX {
                0
            } else {
                (self.active_consumers + 1) as usize
            },
            ..self
        }
    }

    /// The group with one consumer less.
    pub open spec fn left(self) -> LoadBalancedGroup {
        LoadBalancedGroup {
            active_consumers: if self.active_consumers == 0 {
                usize::MAX
            } else {
                (self.active_consumers - 1) as usize
            },
            ..self
        }
    }

    /// The group after it was shut down.
    pub open spec fn stopped(self) -> LoadBalancedGroup {
        LoadBalancedGroup {
            dispatcher_running: false,
            version: next_version(self.version),
            ..self
        }
    }

    /// A new group without consumers, with what its dispatcher needs.
    pub fn new(
        slot: u64,
        main_receiver: MessageReceiver,
        req_channel_capacity: usize,
        address: String,
    ) -> (r: (Self, Dispatcher))
        requires
            0 < req_channel_capacity <= queue_bound(),
        ensures
            r.0.slot == slot,
            r.0.dispatcher_running,
            r.0.version == 1,
            r.0.req_tx.limit() == req_channel_capacity,
            r.0.address@ == address@,
            r.0.active_consumers == 0,
            r.1.requests == r.0.req_tx.receiver(),
            r.1.messages == main_receiver,
            r.1.slot == slot,
            r.1.address@ == address@,
    {
        let (req_tx, req_rx) = create_request_channel(req_channel_capacity);
        let group = LoadBalancedGroup {
            slot,
            dispatcher_running: true,
            version: 1,
            req_tx: Arc::new(req_tx),
            address: address.clone(),
            active_consumers: 0,
        };
        let dispatcher = Dispatcher { requests: req_rx, messages: main_receiver, slot, address };
        (group, dispatcher)
    }

    /// Adds a consumer, and returns its handle on the request channel.
    pub fn subscribe(&mut self) -> (r: Arc<RequestSender>)
        ensures
            r == old(self).req_tx,
            *final(self) == old(self).joined(),
    {
        self.active_consumers = self.active_consumers.wrapping_add(1);
        share(&self.req_tx)
    }

    /// Takes a consumer out. The last one shuts the group down. Returns whether a dispatcher
    /// is to be stopped.
    pub fn remove_consumer(&mut self, slots: &mut HashMap<u64, SubscriptionSlot>) -> (r: bool)
        ensures
            old(self).active_consumers == 1 ==> {
                &&& *final(self) == old(self).left().stopped()
                &&& final(slots)@ == slot_removed(old(slots)@, old(self).slot)
                &&& r == old(self).dispatcher_running
            },
            old(self).active_consumers != 1 ==> {
                &&& *final(self) == old(self).left()
                &&& final(slots)@ == old(slots)@
                &&& !r
            },
    {
        let prev_count: usize = self.active_consumers;
        self.active_consumers = self.active_consumers.wrapping_sub(1);
        if prev_count == 1 {
            self.shutdown(slots)
        } else {
            false
        }
    }

    /// How many consumers have joined and not left.
    pub fn consumer_count(&self) -> (r: usize)
        ensures
            r == self.active_consumers,
    {
        self.active_consumers
    }

    /// The version, which changes when the group is shut down.
    pub fn version(&self) -> (r: u64)
        ensures
            r == self.version,
    {
        self.version
    }

    /// Whether no consumer is left, given how many handles there are on the request channel:
    /// the group's own is the only one.
    pub fn is_empty_when(&self, handles: usize) -> (r: bool)
        ensures
            r == (handles == 1),
    {
        handles == 1
    }

    /// Whether this is a number of handles on the request channel that was counted.
    pub closed spec fn counted(self, handles: usize) -> bool {
        call_ensures(handle_count, (&self.req_tx,), handles)
    }

    /// Whether this is an answer to whether no consumer has a handle on the request channel:
    /// that the handle of the group was the only one counted.
    pub open spec fn reports_empty(self, empty: bool) -> bool {
        exists|handles: usize| #[trigger] self.counted(handles) && empty == (handles == 1)
    }

    /// Whether no consumer has a handle on the request channel at this moment. The handles
    /// are with other tasks; `is_empty_when` says what follows from their number.
    pub fn is_empty(&self) -> (r: bool)
        ensures
            self.reports_empty(r),
    {
        let handles: usize = handle_count(&self.req_tx);
        assert(self.counted(handles));
        self.is_empty_when(handles)
    }

    /// Shuts the group down: its dispatcher is to be stopped if it runs, which is returned,
    /// its slot is removed and its version moves on.
    pub fn shutdown(&mut self, slots: &mut HashMap<u64, SubscriptionSlot>) -> (r: bool)
        ensures
            r == old(self).dispatcher_running,
            *final(self) == old(self).stopped(),
            final(slots)@ == slot_removed(old(slots)@, old(self).slot),
    {
        let running = self.dispatcher_running;
        self.dispatcher_running = false;
        remove_slot_in(slots, self.slot);
        self.version = self.version.wrapping_add(1);
        running
    }
}

/// How many handles are said to have been counted is what counting them returned.
pub(crate) proof fn law_counted_handles(group: LoadBalancedGroup, handles: usize)
    ensures
        group.counted(handles) ==> call_ensures(handle_count, (&group.req_tx,), handles),
{
}

// ---------------------------------------------------------------------------------------
// The dispatcher
// ---------------------------------------------------------------------------------------

/// What a dispatcher is about to do.
pub enum DispatcherState {
    /// Wait for a request of any consumer.
    AwaitRequest,
    /// Wait for a message, to answer this request with.
    AwaitMessage(RequestToken),
    /// Wait for another request, as the consumer that asked for this message is gone.
    AwaitRetry(Message),
    /// Nothing any more.
    Stopped,
}

/// What the dispatcher waits for.
#[derive(Debug, Clone, Copy, PartialEq, Eq, Structural)]
pub enum DispatcherAction {
    /// The next request.
    ReceiveRequest,
    /// The next message.
    ReceiveMessage,
    /// Nothing: the group is at its end.
    Stop,
}

/// What a dispatcher does next, after something came in.
pub enum DispatcherStep {
    /// It goes on in this state.
    Wait(DispatcherState),
    /// It answers this request with this message, and goes on as `after_delivery` says.
    Deliver(RequestToken, Message),
}

impl DispatcherState {
    /// The message that is not yet delivered, if there is one.
    pub open spec fn held(self) -> Option<Message> {
        match self {
            DispatcherState::AwaitRetry(message) => Some(message),
            _ => None,
        }
    }

    /// What follows an attempt to deliver a message, which failed if it is handed back.
    pub open spec fn after(outcome: Result<(), Message>) -> DispatcherState {
        match outcome {
            Ok(()) => DispatcherState::AwaitRequest,
            Err(message) => DispatcherState::AwaitRetry(message),
        }
    }

    /// What follows a request, or `None` if there are no consumers any more.
    pub open spec fn request_step(self, request: Option<RequestToken>) -> DispatcherStep {
        match (self, request) {
            (DispatcherState::AwaitRequest, Some(token)) => DispatcherStep::Wait(
                DispatcherState::AwaitMessage(token),
            ),
            (DispatcherState::AwaitRequest, None) => DispatcherStep::Wait(DispatcherState::Stopped),
            (DispatcherState::AwaitRetry(message), Some(token)) => DispatcherStep::Deliver(
                token,
                message,
            ),
            (DispatcherState::AwaitRetry(_), None) => DispatcherStep::Wait(
                DispatcherState::AwaitRequest,
            ),
            (state, _) => DispatcherStep::Wait(state),
        }
    }

    /// What follows a message, or `None` if the queue of the group is closed.
    pub open spec fn message_step(self, message: Option<Message>) -> DispatcherStep {
        match (self, message) {
            (DispatcherState::AwaitMessage(token), Some(m)) => DispatcherStep::Deliver(token, m),
            (DispatcherState::AwaitMessage(_), None) => DispatcherStep::Wait(
                DispatcherState::Stopped,
            ),
            (state, _) => DispatcherStep::Wait(state),
        }
    }

    /// What the dispatcher waits for.
    pub fn next_action(&self) -> (r: DispatcherAction)
        ensures
            r == match *self {
                DispatcherState::AwaitRequest => DispatcherAction::ReceiveRequest,
                DispatcherState::AwaitMessage(_) => DispatcherAction::ReceiveMessage,
                DispatcherState::AwaitRetry(_) => DispatcherAction::ReceiveRequest,
                DispatcherState::Stopped => DispatcherAction::Stop,
            },
    {
        match self {
            DispatcherState::AwaitRequest => DispatcherAction::ReceiveRequest,
            DispatcherState::AwaitMessage(_) => DispatcherAction::ReceiveMessage,
            DispatcherState::AwaitRetry(_) => DispatcherAction::ReceiveRequest,
            DispatcherState::Stopped => DispatcherAction::Stop,
        }
    }

    /// What follows an attempt to deliver a message: the next request if it was delivered,
    /// and otherwise another attempt with the message that was handed back.
    pub fn after_delivery(outcome: Result<(), Message>) -> (r: DispatcherState)
        ensures
            r == DispatcherState::after(outcome),
    {
        match outcome {
            Ok(()) => DispatcherState::AwaitRequest,
            Err(message) => DispatcherState::AwaitRetry(message),
        }
    }

    /// A request came in, or `None` if there are no consumers any more.
    ///
    /// A message that is held goes to the consumer that asks; it is dropped only if there are
    /// no consumers any more. In a state that waits for no request nothing changes.
    pub fn on_request(self, request: Option<RequestToken>) -> (r: DispatcherStep)
        ensures
            r == self.request_step(request),
    {
        match (self, request) {
            (DispatcherState::AwaitRequest, Some(token)) => DispatcherStep::Wait(
                DispatcherState::AwaitMessage(token),
            ),
            (DispatcherState::AwaitRequest, None) => DispatcherStep::Wait(DispatcherState::Stopped),
            (DispatcherState::AwaitRetry(message), Some(token)) => DispatcherStep::Deliver(
                token,
                message,
            ),
            (DispatcherState::AwaitRetry(_), None) => DispatcherStep::Wait(
                DispatcherState::AwaitRequest,
            ),
            (state, _) => DispatcherStep::Wait(state),
        }
    }

    /// A message came in, or `None` if the queue of the group is closed.
    ///
    /// The message goes to the consumer that waits for it. In a state that waits for no
    /// message nothing changes, and the message is handed back.
    pub fn on_message(self, message: Option<Message>) -> (r: (DispatcherStep, Option<Message>))
        ensures
            r.0 == self.message_step(message),
            r.1 == (if self is AwaitMessage {
                None
            } else {
                message
            }),
    {
        match (self, message) {
            (DispatcherState::AwaitMessage(token), Some(m)) => (
                DispatcherStep::Deliver(token, m),
                None,
            ),
            (DispatcherState::AwaitMessage(_), None) => (
                DispatcherStep::Wait(DispatcherState::Stopped),
                None,
            ),
            (state, m) => (DispatcherStep::Wait(state), m),
        }
    }
}

} // verus!
