//! Delivery within the process.
//!
//! The channel of a recipient is found in the registry. What was found can be kept as an
//! endpoint and used again for as long as the version of the target stays the same and the
//! target is not closed.

use vstd::prelude::*;
use vstd::utf8::encode_utf8;

use super::channel::MessageSender;
use super::{IoErrorKind, TransportError, TransportResult};
use crate::broker_core::registry::routing::RouteTarget;
use crate::broker_core::registry::store::{RouteStore, Store};
use crate::broker_core::registry::{LocalRegistry, RegistryView};
use crate::protocol::Message;

verus! {

/// A target that was found in the registry, with its version at that moment.
#[derive(Debug, Clone, Copy, PartialEq, Eq, Structural)]
pub struct InMemoryEndpoint {
    /// The target.
    pub target: RouteTarget,
    /// Its version when it was found.
    pub cached_version: u64,
}

impl InMemoryEndpoint {
    /// The endpoint for a target as it is now.
    pub open spec fn at(target: RouteTarget, store: Store) -> InMemoryEndpoint {
        InMemoryEndpoint { target, cached_version: store.version_of(target) }
    }

    /// Whether the target is unchanged since it was found.
    pub open spec fn fresh(self, store: Store) -> bool {
        store.version_of(self.target) == self.cached_version
    }

    /// Whether the endpoint can be used as far as the registry knows: its target is unchanged
    /// and was not removed. Whether somebody still receives is for the channel to say.
    pub open spec fn usable(self, store: Store) -> bool {
        &&& self.fresh(store)
        &&& store.holds(self.target)
        &&& self.target is Single ==> store.sender_of(self.target) is Some
    }

    /// Whether this is an answer to whether the endpoint can still be used: that its target is
    /// unchanged and did not report to be closed.
    pub open spec fn reports_valid(self, store: Store, valid: bool) -> bool {
        exists|closed: bool| #[trigger]
            store.reports_closed(self.target, closed) && valid == (self.fresh(store) && !closed)
    }

    /// The endpoint for a target as it is now.
    pub fn new(target: RouteTarget, store: &RouteStore) -> (r: Self)
        ensures
            r == InMemoryEndpoint::at(target, store@),
    {
        InMemoryEndpoint { target, cached_version: target.version(store) }
    }

    /// Whether the endpoint can still be used, given whether its target is closed.
    pub fn valid_when(&self, store: &RouteStore, closed: bool) -> (r: bool)
        ensures
            r == (self.fresh(store@) && !closed),
    {
        self.target.version(store) == self.cached_version && !closed
    }

    /// Whether the endpoint can still be used: its target is unchanged and not closed. An
    /// endpoint that is usable is valid unless its receivers are gone; `valid_when` says what
    /// follows from that.
    pub fn is_valid(&self, store: &RouteStore) -> (r: bool)
        ensures
            !self.usable(store@) ==> !r,
            self.reports_valid(store@, r),
    {
        let closed = self.target.is_closed(store);
        assert(store@.reports_closed(self.target, closed));
        self.valid_when(store, closed)
    }

    /// The channel to send messages with. The registry is not asked again.
    pub fn delivery<'a>(&self, store: &'a RouteStore) -> (r: TransportResult<&'a MessageSender>)
        ensures
            match store@.sender_of(self.target) {
                Some(sender) => r matches Ok(s) && *s == sender,
                None => r == Err::<&MessageSender, TransportError>(
                    TransportError::ConnectionClosed,
                ),
            },
    {
        self.target.delivery(store)
    }
}

/// Delivery within the process.
#[derive(Debug, Clone, Copy, PartialEq, Eq, Structural)]
pub struct InMemoryTransport;

impl InMemoryTransport {
    /// Delivery within the process.
    pub fn new() -> (r: Self)
        ensures
            r == InMemoryTransport,
    {
        InMemoryTransport
    }

    /// The endpoint to which an address leads.
    pub open spec fn found(registry: RegistryView, address: Seq<char>) -> Option<InMemoryEndpoint> {
        match registry.routes.route_of(encode_utf8(address)) {
            Some(target) => Some(InMemoryEndpoint::at(target, registry.store)),
            None => None,
        }
    }

    /// Whether `r` is what an address resolves to, given whether the receiving side of its
    /// channel is gone: the endpoint to which it leads, or that nobody is registered for it, or
    /// that its channel is closed.
    pub open spec fn resolves(
        registry: RegistryView,
        address: Seq<char>,
        channel_closed: bool,
        r: TransportResult<InMemoryEndpoint>,
    ) -> bool {
        match InMemoryTransport::found(registry, address) {
            Some(endpoint) => if channel_closed || registry.store.sender_of(
                endpoint.target,
            ) is None {
                r == Err::<InMemoryEndpoint, TransportError>(TransportError::ConnectionClosed)
            } else {
                r == Ok::<InMemoryEndpoint, TransportError>(endpoint)
            },
            None => r matches Err(TransportError::RecipientNotFound(text)) && text@ == address,
        }
    }

    /// Whether this is an answer that the channel to which an address leads gave when it was
    /// asked whether its receiving side is gone. Without a channel there is nobody to ask.
    pub open spec fn channel_reports(
        registry: RegistryView,
        address: Seq<char>,
        closed: bool,
    ) -> bool {
        match InMemoryTransport::found(registry, address) {
            Some(endpoint) => match registry.store.sender_of(endpoint.target) {
                Some(sender) => sender.reports(closed),
                None => true,
            },
            None => true,
        }
    }

    /// Whether the channel to which an address leads has lost its receiving side at this
    /// moment, which depends on other tasks: the result is the answer of the channel.
    pub(crate) fn channel_closed(&self, registry: &LocalRegistry, address: &str) -> (r: bool)
        requires
            registry@.inv(),
        ensures
            InMemoryTransport::channel_reports(registry@, address@, r),
    {
        match self.channel_for(registry, address) {
            Ok(channel) => channel.is_closed(),
            Err(_) => true,
        }
    }

    /// Finds the endpoint to which an address leads, given whether the receiving side of its
    /// channel is gone.
    pub fn resolve_when(&self, registry: &LocalRegistry, address: &str, channel_closed: bool) -> (r:
        TransportResult<InMemoryEndpoint>)
        requires
            registry@.inv(),
        ensures
            InMemoryTransport::resolves(registry@, address@, channel_closed, r),
    {
        match registry.lookup(address) {
            Some(target) => {
                let delivery = target.delivery(&registry.store);
                if channel_closed || delivery.is_err() {
                    return Err(TransportError::ConnectionClosed);
                }
                Ok(InMemoryEndpoint::new(target, &registry.store))
            },
            None => Err(TransportError::RecipientNotFound(address.to_string())),
        }
    }

    /// Finds the endpoint to which an address leads. It is an error if nobody is registered
    /// for the address or if its channel is closed. Whether the receiving side of the channel
    /// is gone depends on other tasks; `resolve_when` says what follows from that.
    pub fn resolve(&self, registry: &LocalRegistry, address: &str) -> (r: TransportResult<
        InMemoryEndpoint,
    >)
        requires
            registry@.inv(),
        ensures
            InMemoryTransport::resolves(registry@, address@, true, r)
                || InMemoryTransport::resolves(registry@, address@, false, r),
            exists|closed: bool| #[trigger]
                InMemoryTransport::channel_reports(registry@, address@, closed)
                    && InMemoryTransport::resolves(registry@, address@, closed, r),
    {
        let channel_closed = self.channel_closed(registry, address);
        self.resolve_when(registry, address, channel_closed)
    }

    /// Finds the channel to send a message to an address with.
    pub fn channel_for<'a>(&self, registry: &'a LocalRegistry, address: &str) -> (r: TransportResult<
        &'a MessageSender,
    >)
        requires
            registry@.inv(),
        ensures
            match registry@.routes.route_of(encode_utf8(address@)) {
                Some(target) => match registry@.store.sender_of(target) {
                    Some(sender) => r matches Ok(s) && *s == sender,
                    None => r == Err::<&MessageSender, TransportError>(
                        TransportError::ConnectionClosed,
                    ),
                },
                None => r matches Err(TransportError::RecipientNotFound(text)) && text@ == address@,
            },
    {
        match registry.lookup(address) {
            Some(target) => target.delivery(&registry.store),
            None => Err(TransportError::RecipientNotFound(address.to_string())),
        }
    }

    /// Finds the channel to send a message to an endpoint with.
    pub fn channel_of<'a>(&self, registry: &'a LocalRegistry, endpoint: &InMemoryEndpoint) -> (r:
        TransportResult<&'a MessageSender>)
        ensures
            match registry@.store.sender_of(endpoint.target) {
                Some(sender) => r matches Ok(s) && *s == sender,
                None => r == Err::<&MessageSender, TransportError>(
                    TransportError::ConnectionClosed,
                ),
            },
    {
        endpoint.delivery(&registry.store)
    }

    /// Requests are not made here: only a client can set the address for the reply and wait
    /// for it.
    pub fn request(&self, _address: &str, _message: Message) -> (r: TransportResult<Message>)
        ensures
            r matches Err(TransportError::Io(IoErrorKind::Unsupported, text)) && text@
                == "Use BrokerClient::request for InOut mode to ensure proper reply_to injection and per-client dispatching"@,
    {
        Err(
            TransportError::Io(
                IoErrorKind::Unsupported,
                "Use BrokerClient::request for InOut mode to ensure proper reply_to injection and per-client dispatching".to_string(),
            ),
        )
    }

    /// Requests are not made here either.
    pub fn request_to(&self, _endpoint: &InMemoryEndpoint, _message: Message) -> (r:
        TransportResult<Message>)
        ensures
            r matches Err(TransportError::Io(IoErrorKind::Unsupported, text)) && text@
                == "Use BrokerClient::request for InOut mode"@,
    {
        Err(
            TransportError::Io(
                IoErrorKind::Unsupported,
                "Use BrokerClient::request for InOut mode".to_string(),
            ),
        )
    }

    /// Messages are received by the subscribers themselves, so there is nothing to receive
    /// here.
    pub fn receive(&self) -> (r: TransportResult<Message>)
        ensures
            r == Err::<Message, TransportError>(TransportError::ConnectionClosed),
    {
        Err(TransportError::ConnectionClosed)
    }

    /// There is nothing to close.
    pub fn close(&self) -> (r: TransportResult<()>)
        ensures
            r == Ok::<(), TransportError>(()),
    {
        Ok(())
    }
}

} // verus!
