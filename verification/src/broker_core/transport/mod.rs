//! Message delivery.

pub mod channel;
pub mod in_memory;
pub mod laws;
pub mod operation_laws;
pub mod raw;

use vstd::prelude::*;

use super::registry::error::RegistryError;
use crate::protocol::ProtocolError;

verus! {

/// What kind of input or output failed.
#[derive(Debug, Clone, Copy, PartialEq, Eq, Structural)]
pub enum IoErrorKind {
    /// The operation is not supported.
    Unsupported,
    /// Anything else.
    Other,
}

/// Errors of message delivery.
#[derive(Debug, PartialEq, Eq)]
pub enum TransportError {
    /// The delivery channel is closed: its receiver is gone.
    ConnectionClosed,
    /// The time for the operation is over.
    Timeout,
    /// Nobody is registered for the address.
    RecipientNotFound(String),
    /// The registry refused.
    Registry(RegistryError),
    /// A message is not well formed.
    Protocol(ProtocolError),
    /// Input or output failed, for the reason given.
    Io(IoErrorKind, String),
}

/// The result of an operation of message delivery.
pub type TransportResult<T> = Result<T, TransportError>;

impl From<RegistryError> for TransportError {
    fn from(e: RegistryError) -> (r: Self) {
        TransportError::Registry(e)
    }
}

impl vstd::std_specs::convert::FromSpecImpl<RegistryError> for TransportError {
    open spec fn obeys_from_spec() -> bool {
        true
    }

    open spec fn from_spec(e: RegistryError) -> Self {
        TransportError::Registry(e)
    }
}

impl From<ProtocolError> for TransportError {
    fn from(e: ProtocolError) -> (r: Self) {
        TransportError::Protocol(e)
    }
}

impl vstd::std_specs::convert::FromSpecImpl<ProtocolError> for TransportError {
    open spec fn obeys_from_spec() -> bool {
        true
    }

    open spec fn from_spec(e: ProtocolError) -> Self {
        TransportError::Protocol(e)
    }
}

/// An error of delivery says what went wrong below it, and carries the cause.
pub proof fn law_transport_errors(
    registry: RegistryError,
    protocol: ProtocolError,
    of_registry: TransportError,
    of_protocol: TransportError,
)
    requires
        call_ensures(<TransportError as From<RegistryError>>::from, (registry,), of_registry),
        call_ensures(<TransportError as From<ProtocolError>>::from, (protocol,), of_protocol),
    ensures
        of_registry == TransportError::Registry(registry),
        of_protocol == TransportError::Protocol(protocol),
{
}

} // verus!
