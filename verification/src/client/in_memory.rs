//! Delivery through a plain table of recipients.

use vstd::prelude::*;

use super::registry::LocalRegistry;
use crate::broker_core::transport::channel::{
    create_channel, MessageReceiver, MessageSender, SendError,
};
use crate::broker_core::transport::{TransportError, TransportResult};
use crate::protocol::{mode_flags, HeaderView, Message, MessageView, TransferMode};

verus! {

/// How many messages the incoming channel of a transport holds.
pub const INCOMING_CAPACITY: usize = 1024;

/// Delivery through a plain table of recipients, with a channel for incoming messages.
pub struct InMemoryTransport {
    /// The recipients.
    pub registry: LocalRegistry,
    /// Where messages come in.
    pub incoming: MessageReceiver,
}

impl InMemoryTransport {
    /// A transport with these recipients, and the sending side of its incoming channel.
    pub fn new(registry: LocalRegistry) -> (r: (Self, MessageSender))
        ensures
            r.0.registry == registry,
            r.0.incoming == r.1.receiver(),
            r.1.limit() == INCOMING_CAPACITY,
    {
        let (tx, rx) = create_channel(INCOMING_CAPACITY);
        (InMemoryTransport { registry, incoming: rx }, tx)
    }

    /// The recipient to send a message to.
    pub fn recipient(&self, address: &str) -> (r: TransportResult<u64>)
        ensures
            if self.registry@.contains_key(address@) {
                r == Ok::<u64, TransportError>(self.registry@[address@])
            } else {
                r matches Err(TransportError::RecipientNotFound(text)) && text@ == address@
            },
    {
        match self.registry.lookup(address) {
            Some(channel) => Ok(channel),
            None => Err(TransportError::RecipientNotFound(address.to_string())),
        }
    }

    /// What sending a message comes to, given what the channel of the recipient did with it:
    /// a recipient whose channel is closed counts as not found.
    pub fn send_outcome(address: &str, sent: Result<(), SendError<Message>>) -> (r: TransportResult<
        (),
    >)
        ensures
            match sent {
                Ok(()) => r == Ok::<(), TransportError>(()),
                Err(_) => r matches Err(TransportError::RecipientNotFound(text)) && text@
                    == address@,
            },
    {
        match sent {
            Ok(()) => Ok(()),
            Err(_) => Err(TransportError::RecipientNotFound(address.to_string())),
        }
    }

    /// The message as a request, which is answered by a response.
    pub fn as_request(message: Message) -> (r: Message)
        ensures
            r@ == (MessageView {
                header: HeaderView { flags: mode_flags(TransferMode::InOut), ..message@.header },
                ..message@
            }),
    {
        let mut request = message;
        request.header.flags = TransferMode::InOut.to_flags();
        request
    }

    /// What waiting for a message comes to: the message, or that no more will come.
    pub fn receive_outcome(received: Option<Message>) -> (r: TransportResult<Message>)
        ensures
            match received {
                Some(message) => r == Ok::<Message, TransportError>(message),
                None => r == Err::<Message, TransportError>(TransportError::ConnectionClosed),
            },
    {
        match received {
            Some(message) => Ok(message),
            None => Err(TransportError::ConnectionClosed),
        }
    }
}

} // verus!
