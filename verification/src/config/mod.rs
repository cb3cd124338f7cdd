//! Configuration of the broker, its clients and its subscribers.

pub mod laws;

use core::time::Duration;
use vstd::prelude::*;

use crate::broker_core::registry::routing::RoutingPolicy;

verus! {

/// The capacity of a client's reply channel, unless it is set.
pub const DEFAULT_REPLY_CHANNEL_CAPACITY: usize = 1024;

/// The capacity of a subscriber's channel, unless it is set.
pub const DEFAULT_CHANNEL_CAPACITY: usize = 1024;

/// How long a request waits for its reply, in milliseconds, unless it is set.
pub const DEFAULT_REQUEST_TIMEOUT_MS: u64 = 30_000;

/// The time to live of a message, unless it is set.
pub const DEFAULT_TTL: u8 = 64;

/// The duration of so many milliseconds.
pub uninterp spec fn millis_duration(ms: u64) -> Duration;

/// Calls `Duration::from_millis`, whose result is a function of the number of milliseconds.
#[verifier::external_body]
pub(crate) fn duration_from_millis(ms: u64) -> (r: Duration)
    ensures
        r == millis_duration(ms),
{
    Duration::from_millis(ms)
}

/// Why a setting is refused.
#[derive(Debug, Clone, Copy, PartialEq, Eq, Structural)]
pub enum ConfigError {
    /// A channel must hold at least one message.
    ZeroChannelCapacity,
}

/// The configuration of a broker.
#[derive(Debug, Clone, Copy, PartialEq, Eq, Structural)]
pub struct BrokerConfig {
    /// The capacity of the channel through which replies come in.
    pub reply_channel_capacity: usize,
    /// How long a request waits for its reply, in milliseconds.
    pub request_timeout_ms: u64,
    /// The time to live of messages in cascade routing.
    pub default_ttl: u8,
    /// The largest payload, in bytes.
    pub max_payload_size: u32,
    /// The longest address, in bytes.
    pub max_address_length: u16,
    /// The longest message type, in bytes.
    pub max_msg_type_length: u8,
}

impl BrokerConfig {
    /// The default configuration.
    pub open spec fn standard() -> BrokerConfig {
        BrokerConfig {
            reply_channel_capacity: 1024,
            request_timeout_ms: 30_000,
            default_ttl: 64,
            max_payload_size: 1_048_576,
            max_address_length: 1024,
            max_msg_type_length: 255,
        }
    }

    /// The default configuration.
    pub fn new() -> (r: Self)
        ensures
            r == BrokerConfig::standard(),
    {
        BrokerConfig::default()
    }

    /// Sets the capacity of the reply channel, which must not be zero.
    #[must_use]
    pub fn with_reply_channel_capacity(self, capacity: usize) -> (r: Self)
        requires
            capacity > 0,
        ensures
            r == (BrokerConfig { reply_channel_capacity: capacity, ..self }),
    {
        BrokerConfig { reply_channel_capacity: capacity, ..self }
    }

    /// Sets how long a request waits for its reply.
    #[must_use]
    pub fn with_request_timeout_ms(self, timeout_ms: u64) -> (r: Self)
        ensures
            r == (BrokerConfig { request_timeout_ms: timeout_ms, ..self }),
    {
        BrokerConfig { request_timeout_ms: timeout_ms, ..self }
    }

    /// Sets the time to live of messages.
    #[must_use]
    pub fn with_default_ttl(self, ttl: u8) -> (r: Self)
        ensures
            r == (BrokerConfig { default_ttl: ttl, ..self }),
    {
        BrokerConfig { default_ttl: ttl, ..self }
    }

    /// How long a request waits for its reply.
    pub fn request_timeout(&self) -> (r: Duration)
        ensures
            r == millis_duration(self.request_timeout_ms),
    {
        duration_from_millis(self.request_timeout_ms)
    }
}

impl Default for BrokerConfig {
    fn default() -> (r: Self)
        ensures
            r == BrokerConfig::standard(),
    {
        BrokerConfig {
            reply_channel_capacity: DEFAULT_REPLY_CHANNEL_CAPACITY,
            request_timeout_ms: DEFAULT_REQUEST_TIMEOUT_MS,
            default_ttl: DEFAULT_TTL,
            max_payload_size: 1_048_576,
            max_address_length: 1024,
            max_msg_type_length: 255,
        }
    }
}

/// The configuration of a client.
#[derive(Debug, Clone, Copy, PartialEq, Eq, Structural)]
pub struct ClientConfig {
    /// The capacity of the channel through which replies come in.
    pub reply_channel_capacity: usize,
}

impl Default for ClientConfig {
    fn default() -> (r: Self)
        ensures
            r.reply_channel_capacity == 1024,
    {
        ClientConfig { reply_channel_capacity: DEFAULT_REPLY_CHANNEL_CAPACITY }
    }
}

/// The configuration of a subscription.
#[derive(Debug, Clone, Copy, PartialEq, Eq, Structural)]
pub struct SubscriberConfig {
    /// How many messages the channel of the subscriber holds. Once it is full, senders wait
    /// or get an error.
    pub channel_capacity: usize,
    /// How messages are handed to the subscribers of the address.
    pub routing_policy: RoutingPolicy,
}

impl SubscriberConfig {
    /// The default configuration.
    pub open spec fn standard() -> SubscriberConfig {
        SubscriberConfig { channel_capacity: 1024, routing_policy: RoutingPolicy::Exclusive }
    }

    /// The default configuration.
    pub fn new() -> (r: Self)
        ensures
            r == SubscriberConfig::standard(),
    {
        SubscriberConfig::default()
    }

    /// Sets the capacity of the channel. A capacity of zero is refused.
    pub fn with_channel_capacity(self, channel_capacity: usize) -> (r: Result<Self, ConfigError>)
        ensures
            r == (if channel_capacity == 0 {
                Err::<Self, ConfigError>(ConfigError::ZeroChannelCapacity)
            } else {
                Ok::<Self, ConfigError>(SubscriberConfig { channel_capacity, ..self })
            }),
    {
        if channel_capacity == 0 {
            return Err(ConfigError::ZeroChannelCapacity);
        }
        Ok(SubscriberConfig { channel_capacity, ..self })
    }
}

impl Default for SubscriberConfig {
    fn default() -> (r: Self)
        ensures
            r == SubscriberConfig::standard(),
    {
        SubscriberConfig {
            channel_capacity: DEFAULT_CHANNEL_CAPACITY,
            routing_policy: RoutingPolicy::Exclusive,
        }
    }
}

} // verus!
