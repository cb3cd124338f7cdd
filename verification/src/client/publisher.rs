//! Publishers: senders that keep the endpoint of their address.

use vstd::prelude::*;

use crate::broker_core::registry::{LocalRegistry, RegistryView};
use crate::broker_core::transport::in_memory::{InMemoryEndpoint, InMemoryTransport};
use crate::broker_core::transport::{TransportError, TransportResult};

verus! {

/// A sender of messages to one address.
pub struct Publisher {
    /// The address.
    pub address: String,
    /// How the address is resolved.
    pub transport: InMemoryTransport,
    /// The endpoint that the address led to when it was last resolved.
    pub cached_endpoint: Option<InMemoryEndpoint>,
}

impl Publisher {
    /// A publisher that has not yet resolved its address.
    pub fn new(address: String, transport: InMemoryTransport) -> (r: Self)
        ensures
            r.address == address,
            r.transport == transport,
            r.cached_endpoint is None,
    {
        Publisher { address, transport, cached_endpoint: None }
    }

    /// The publisher with this endpoint.
    pub open spec fn with_endpoint(self, endpoint: Option<InMemoryEndpoint>) -> Publisher {
        Publisher { cached_endpoint: endpoint, ..self }
    }

    /// Whether this is an answer to whether the kept endpoint can still be used: that of the
    /// endpoint, and no if there is none.
    pub open spec fn reports_valid(self, registry: RegistryView, valid: bool) -> bool {
        match self.cached_endpoint {
            Some(endpoint) => endpoint.reports_valid(registry.store, valid),
            None => !valid,
        }
    }

    /// Whether the kept endpoint can still be used.
    pub fn cached_is_valid(&self, registry: &LocalRegistry) -> (r: bool)
        ensures
            !(self.cached_endpoint matches Some(endpoint) && endpoint.usable(registry@.store))
                ==> !r,
            self.reports_valid(registry@, r),
    {
        match &self.cached_endpoint {
            Some(endpoint) => endpoint.is_valid(&registry.store),
            None => false,
        }
    }

    /// Returns the endpoint to use for the next message, given whether the kept one can still
    /// be used and whether the channel of the address has lost its receiving side: the kept
    /// one if it can be used, and otherwise what the address resolves to now, which is kept
    /// from now on.
    pub fn endpoint_when(
        &mut self,
        registry: &LocalRegistry,
        cached_valid: bool,
        channel_closed: bool,
    ) -> (r: TransportResult<InMemoryEndpoint>)
        requires
            registry@.inv(),
        ensures
            match (old(self).cached_endpoint, cached_valid) {
                (Some(endpoint), true) => {
                    &&& r == Ok::<InMemoryEndpoint, TransportError>(endpoint)
                    &&& *final(self) == *old(self)
                },
                _ => {
                    &&& InMemoryTransport::resolves(
                        registry@,
                        old(self).address@,
                        channel_closed,
                        r,
                    )
                    &&& *final(self) == match r {
                        Ok(endpoint) => old(self).with_endpoint(Some(endpoint)),
                        Err(_) => *old(self),
                    }
                },
            },
    {
        if let Some(endpoint) = self.cached_endpoint {
            if cached_valid {
                return Ok(endpoint);
            }
        }
        match self.transport.resolve_when(registry, self.address.as_str(), channel_closed) {
            Ok(resolved) => {
                self.cached_endpoint = Some(resolved);
                Ok(resolved)
            },
            Err(e) => Err(e),
        }
    }

    /// Returns the endpoint to use for the next message: the kept one if it can still be
    /// used, and otherwise the one that the address leads to now, which is kept. Either way
    /// the target of the endpoint is unchanged since it was found, and was not removed.
    ///
    /// Whether an endpoint can be used depends on its channel too; `endpoint_when` says what
    /// follows from that.
    pub fn get_or_resolve_endpoint(&mut self, registry: &LocalRegistry) -> (r: TransportResult<
        InMemoryEndpoint,
    >)
        requires
            registry@.inv(),
        ensures
            match r {
                Ok(endpoint) => {
                    &&& *final(self) == old(self).with_endpoint(Some(endpoint))
                    &&& endpoint.usable(registry@.store)
                    &&& {
                        ||| old(self).cached_endpoint == Some(endpoint)
                        ||| InMemoryTransport::resolves(registry@, old(self).address@, false, r)
                    }
                },
                Err(_) => {
                    &&& *final(self) == *old(self)
                    &&& {
                        ||| InMemoryTransport::resolves(registry@, old(self).address@, true, r)
                        ||| InMemoryTransport::resolves(registry@, old(self).address@, false, r)
                    }
                },
            },
            !(old(self).cached_endpoint matches Some(endpoint) && endpoint.usable(registry@.store))
                ==> InMemoryTransport::resolves(registry@, old(self).address@, true, r)
                || InMemoryTransport::resolves(registry@, old(self).address@, false, r),
            ({
                ||| {
                    &&& old(self).reports_valid(registry@, true)
                    &&& r == Ok::<InMemoryEndpoint, TransportError>(old(self).cached_endpoint->0)
                    &&& *final(self) == *old(self)
                }
                ||| {
                    &&& old(self).reports_valid(registry@, false)
                    &&& exists|closed: bool| #[trigger]
                        InMemoryTransport::channel_reports(registry@, old(self).address@, closed)
                            && InMemoryTransport::resolves(
                            registry@,
                            old(self).address@,
                            closed,
                            r,
                        )
                }
            }),
    {
        let cached_valid = self.cached_is_valid(registry);
        let channel_closed = !cached_valid && self.transport.channel_closed(
            registry,
            self.address.as_str(),
        );
        self.endpoint_when(registry, cached_valid, channel_closed)
    }

    /// What sending a message comes to, given what the transport reported. If the connection
    /// was closed, the kept endpoint is dropped, so that the address is resolved anew.
    pub fn after_send(&mut self, sent: TransportResult<()>) -> (r: TransportResult<()>)
        ensures
            r == sent,
            *final(self) == (if sent == Err::<(), TransportError>(
                TransportError::ConnectionClosed,
            ) {
                old(self).with_endpoint(None)
            } else {
                *old(self)
            }),
    {
        match sent {
            Err(TransportError::ConnectionClosed) => {
                self.invalidate_cache();
                Err(TransportError::ConnectionClosed)
            },
            other => other,
        }
    }

    /// The address.
    pub fn address(&self) -> (r: &str)
        ensures
            r@ == self.address@,
    {
        self.address.as_str()
    }

    /// Drops the kept endpoint.
    pub fn invalidate_cache(&mut self)
        ensures
            *final(self) == old(self).with_endpoint(None),
    {
        self.cached_endpoint = None;
    }
}

} // verus!
