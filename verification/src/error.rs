//! Errors of the broker.

use vstd::prelude::*;

use crate::broker_core::registry::error::RegistryError;
use crate::broker_core::transport::channel::{SendError, TrySendError};
use crate::protocol::{Message, ProtocolError};

verus! {

/// Errors of the broker.
#[derive(Debug, PartialEq, Eq)]
pub enum BrokerError {
    /// The channel is closed; the message was not sent.
    ChannelClosed(Message),
    /// The channel is full; the message was not sent.
    ChannelFull(Message),
    /// A message is not well formed.
    ProtocolError(ProtocolError),
    /// The registry refused an address.
    Registry(RegistryError),
}

impl From<ProtocolError> for BrokerError {
    fn from(e: ProtocolError) -> (r: Self) {
        BrokerError::ProtocolError(e)
    }
}

impl vstd::std_specs::convert::FromSpecImpl<ProtocolError> for BrokerError {
    open spec fn obeys_from_spec() -> bool {
        true
    }

    open spec fn from_spec(e: ProtocolError) -> Self {
        BrokerError::ProtocolError(e)
    }
}

impl From<RegistryError> for BrokerError {
    fn from(e: RegistryError) -> (r: Self) {
        BrokerError::Registry(e)
    }
}

impl vstd::std_specs::convert::FromSpecImpl<RegistryError> for BrokerError {
    open spec fn obeys_from_spec() -> bool {
        true
    }

    open spec fn from_spec(e: RegistryError) -> Self {
        BrokerError::Registry(e)
    }
}

impl From<TrySendError<Message>> for BrokerError {
    fn from(e: TrySendError<Message>) -> (r: Self) {
        match e {
            TrySendError::Full(message) => BrokerError::ChannelFull(message),
            TrySendError::Disconnected(message) => BrokerError::ChannelClosed(message),
        }
    }
}

impl vstd::std_specs::convert::FromSpecImpl<TrySendError<Message>> for BrokerError {
    open spec fn obeys_from_spec() -> bool {
        true
    }

    open spec fn from_spec(e: TrySendError<Message>) -> Self {
        match e {
            TrySendError::Full(message) => BrokerError::ChannelFull(message),
            TrySendError::Disconnected(message) => BrokerError::ChannelClosed(message),
        }
    }
}

impl From<SendError<Message>> for BrokerError {
    fn from(e: SendError<Message>) -> (r: Self) {
        BrokerError::ChannelClosed(e.0)
    }
}

impl vstd::std_specs::convert::FromSpecImpl<SendError<Message>> for BrokerError {
    open spec fn obeys_from_spec() -> bool {
        true
    }

    open spec fn from_spec(e: SendError<Message>) -> Self {
        BrokerError::ChannelClosed(e.0)
    }
}

/// An error of the broker says what went wrong below it, and carries the cause or the message.
pub proof fn law_broker_errors(
    protocol: ProtocolError,
    registry: RegistryError,
    tried: TrySendError<Message>,
    sent: SendError<Message>,
    of_protocol: BrokerError,
    of_registry: BrokerError,
    of_tried: BrokerError,
    of_sent: BrokerError,
)
    requires
        call_ensures(<BrokerError as From<ProtocolError>>::from, (protocol,), of_protocol),
        call_ensures(<BrokerError as From<RegistryError>>::from, (registry,), of_registry),
        call_ensures(<BrokerError as From<TrySendError<Message>>>::from, (tried,), of_tried),
        call_ensures(<BrokerError as From<SendError<Message>>>::from, (sent,), of_sent),
    ensures
        of_protocol == BrokerError::ProtocolError(protocol),
        of_registry == BrokerError::Registry(registry),
        of_tried == match tried {
            TrySendError::Full(message) => BrokerError::ChannelFull(message),
            TrySendError::Disconnected(message) => BrokerError::ChannelClosed(message),
        },
        of_sent == BrokerError::ChannelClosed(sent.0),
{
}

} // verus!
