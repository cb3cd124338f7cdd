//! The broker: one configuration and one registry for all clients of a process.

use tokio::sync::oneshot;
use vstd::prelude::*;
use vstd::utf8::encode_utf8;

use crate::broker_core::registry::store::Store;
use crate::broker_core::registry::table::Routes;
use crate::broker_core::registry::{refuses, LocalRegistry, Verdict};
use crate::broker_core::transport::raw::queue_bound;
use crate::client::subscriber::{CleanupStrategy, Subscriber};
use crate::client::{exclusive_subscription, BrokerClient};
use crate::config::{BrokerConfig, ClientConfig};
use crate::error::BrokerError;
use crate::protocol::Message;

verus! {

/// The broker.
pub struct Broker {
    /// Its configuration.
    pub config: BrokerConfig,
    /// Its registry.
    pub registry: LocalRegistry,
}

impl Broker {
    /// A broker with this configuration and an empty registry.
    pub fn new(config: BrokerConfig) -> (r: Self)
        ensures
            r.config == config,
            r.registry@.routes == Routes::empty(),
            r.registry@.store == Store::empty(),
            r.registry@.inv(),
    {
        Broker { config, registry: LocalRegistry::new() }
    }

    /// The default configuration.
    pub fn default_config() -> (r: BrokerConfig)
        ensures
            r == BrokerConfig::standard(),
    {
        BrokerConfig::default()
    }

    /// A new client under its own address, with where the replies to its requests come in.
    /// The address is refused if it is not free.
    pub fn client(&mut self, config: ClientConfig, client_address: String) -> (r: Result<
        (BrokerClient, Subscriber),
        BrokerError,
    >)
        requires
            old(self).registry@.inv(),
            old(self).registry@.store.next_id < u64::MAX,
            0 < config.reply_channel_capacity <= queue_bound(),
        ensures
            final(self).registry@.inv(),
            final(self).config == old(self).config,
            match old(self).registry@.verdict(encode_utf8(client_address@)) {
                Verdict::Free => {
                    &&& r matches Ok((client, replies))
                    &&& exclusive_subscription(
                        old(self).registry@,
                        final(self).registry@,
                        client_address@,
                        config.reply_channel_capacity,
                        replies,
                    )
                    &&& client.client_address@ == client_address@
                    &&& client.reply_handle.address@ == client_address@
                    &&& client.reply_handle.cleanup == (CleanupStrategy::Exclusive {
                        slot: old(self).registry@.store.next_id,
                    })
                    &&& client.reply_dispatcher.waiters@ == Map::<
                        u128,
                        oneshot::Sender<Message>,
                    >::empty()
                },
                verdict => {
                    &&& r matches Err(BrokerError::Registry(e)) && refuses(
                        e,
                        client_address@,
                        verdict,
                    )
                    &&& final(self).registry@ == old(self).registry@
                },
            },
            old(self).registry@.conflict_is_registered(encode_utf8(client_address@)),
    {
        match BrokerClient::new(self, config, client_address) {
            Ok(made) => Ok(made),
            Err(e) => Err(BrokerError::from(e)),
        }
    }
}

impl Default for Broker {
    fn default() -> (r: Self)
        ensures
            r.config == BrokerConfig::standard(),
            r.registry@.routes == Routes::empty(),
            r.registry@.store == Store::empty(),
            r.registry@.inv(),
    {
        Broker::new(BrokerConfig::default())
    }
}

} // verus!
