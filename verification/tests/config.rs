//! Configuration.

use arcella_broker::broker::Broker;
use arcella_broker::broker_core::registry::routing::RoutingPolicy;
use arcella_broker::config::{BrokerConfig, ClientConfig, ConfigError, SubscriberConfig};

#[test]
fn broker_defaults() {
    let config = BrokerConfig::new();
    assert_eq!(config.reply_channel_capacity, 1024);
    assert_eq!(config.request_timeout_ms, 30_000);
    assert_eq!(config.default_ttl, 64);
    assert_eq!(config.max_payload_size, 1_048_576);
    assert_eq!(config.max_address_length, 1024);
    assert_eq!(config.max_msg_type_length, 255);
    assert_eq!(BrokerConfig::default(), config);
    assert_eq!(Broker::default_config(), config);
    assert_eq!(Broker::default().config, config);
    assert_eq!(ClientConfig::default().reply_channel_capacity, 1024);
}

#[test]
fn broker_settings() {
    let config = BrokerConfig::new()
        .with_reply_channel_capacity(5)
        .with_request_timeout_ms(1_500)
        .with_default_ttl(3);
    assert_eq!(config.reply_channel_capacity, 5);
    assert_eq!(config.request_timeout_ms, 1_500);
    assert_eq!(config.default_ttl, 3);
    assert_eq!(config.max_payload_size, 1_048_576);
    assert_eq!(config.request_timeout(), std::time::Duration::from_millis(1_500));
    assert_eq!(config.request_timeout().as_millis(), 1_500);
}

#[test]
fn subscriber_settings() {
    assert_eq!(SubscriberConfig::new(), SubscriberConfig::default());
    assert_eq!(SubscriberConfig::new().channel_capacity, 1024);
    assert_eq!(SubscriberConfig::new().routing_policy, RoutingPolicy::Exclusive);
    let mut config = SubscriberConfig::default();
    config.routing_policy = RoutingPolicy::LoadBalanced;
    let config = config
        .with_channel_capacity(4096)
        .expect("Channel capacity 4096 should be valid");
    assert_eq!(config.channel_capacity, 4096);
    assert_eq!(config.routing_policy, RoutingPolicy::LoadBalanced);
    assert_eq!(
        SubscriberConfig::new().with_channel_capacity(0),
        Err(ConfigError::ZeroChannelCapacity)
    );
}
