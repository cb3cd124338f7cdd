//! What the settings of a configuration change.

use core::time::Duration;
use vstd::prelude::*;

use super::{millis_duration, BrokerConfig, ClientConfig, ConfigError, SubscriberConfig};
use crate::broker_core::registry::routing::RoutingPolicy;

verus! {

/// Unless it is set otherwise, a reply channel holds 1024 messages, a request waits for 30000
/// milliseconds, a message lives for 64 hops, and a message is within the limits of the
/// protocol.
pub proof fn law_broker_defaults(r: BrokerConfig)
    requires
        call_ensures(BrokerConfig::new, (), r),
    ensures
        r.reply_channel_capacity == 1024,
        r.request_timeout_ms == 30_000,
        r.default_ttl == 64,
        r.max_payload_size == 1_048_576,
        r.max_address_length == 1024,
        r.max_msg_type_length == 255,
{
}

/// Every setting sets what it names, to what it was given, and keeps all else.
pub proof fn law_broker_settings(
    config: BrokerConfig,
    capacity: usize,
    timeout: u64,
    ttl: u8,
    with_capacity: BrokerConfig,
    with_timeout: BrokerConfig,
    with_ttl: BrokerConfig,
)
    requires
        call_ensures(
            BrokerConfig::with_reply_channel_capacity,
            (config, capacity),
            with_capacity,
        ),
        call_ensures(BrokerConfig::with_request_timeout_ms, (config, timeout), with_timeout),
        call_ensures(BrokerConfig::with_default_ttl, (config, ttl), with_ttl),
    ensures
        with_capacity == (BrokerConfig { reply_channel_capacity: capacity, ..config }),
        with_timeout == (BrokerConfig { request_timeout_ms: timeout, ..config }),
        with_ttl == (BrokerConfig { default_ttl: ttl, ..config }),
{
}

/// A request waits as long as the configuration says.
pub proof fn law_request_timeout(config: &BrokerConfig, r: Duration)
    requires
        call_ensures(BrokerConfig::request_timeout, (config,), r),
    ensures
        r == millis_duration(config.request_timeout_ms),
{
}

/// Unless it is set otherwise, a subscription is exclusive and its channel holds 1024 messages.
pub proof fn law_subscriber_defaults(r: SubscriberConfig)
    requires
        call_ensures(SubscriberConfig::new, (), r),
    ensures
        r.channel_capacity == 1024,
        r.routing_policy == RoutingPolicy::Exclusive,
{
}

/// Every capacity but zero is accepted as it is given, and all else is kept.
pub proof fn law_channel_capacity(
    config: SubscriberConfig,
    capacity: usize,
    r: Result<SubscriberConfig, ConfigError>,
)
    requires
        call_ensures(SubscriberConfig::with_channel_capacity, (config, capacity), r),
    ensures
        r is Err <==> capacity == 0,
        r matches Ok(set) ==> set.channel_capacity == capacity && set.routing_policy
            == config.routing_policy,
{
}

/// Unless it is set otherwise, the reply channel of a client holds 1024 messages.
pub proof fn law_client_defaults(r: ClientConfig)
    requires
        call_ensures(<ClientConfig as Default>::default, (), r),
    ensures
        r.reply_channel_capacity == 1024,
{
}

} // verus!
