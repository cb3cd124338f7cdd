//! Clients: subscribing, sending, publishing and requesting.

use arcella_broker::broker::Broker;
use arcella_broker::broker_core::registry::error::RegistryError;
use arcella_broker::broker_core::registry::routing::{RouteTarget, RoutingPolicy};
use arcella_broker::broker_core::registry::LocalRegistry;
use arcella_broker::broker_core::transport::channel::{create_channel, TryRecvError, Wait};
use arcella_broker::broker_core::transport::in_memory::{InMemoryEndpoint, InMemoryTransport};
use arcella_broker::broker_core::transport::{IoErrorKind, TransportError, TransportResult};
use arcella_broker::client::publisher::Publisher;
use arcella_broker::client::reply_dispatcher::ReplyDispatcher;
use arcella_broker::client::subscriber::Subscriber;
use arcella_broker::client::{in_memory, registry, BrokerClient};
use arcella_broker::config::{BrokerConfig, ClientConfig, SubscriberConfig};
use arcella_broker::error::BrokerError;
use arcella_broker::protocol::{Message, TransferMode};
use bytes::Bytes;

fn test_client(address: &str) -> (Broker, BrokerClient, Subscriber) {
    let mut broker = Broker::new(Broker::default_config());
    let (client, replies) = broker.client(ClientConfig::default(), address.to_string()).unwrap();
    (broker, client, replies)
}

fn dummy_message(mode: TransferMode, msg_type: &str, address: &str, payload: &str) -> Message {
    Message::new(
        mode,
        [0u8; 32],
        [1u8; 16],
        [0u8; 4],
        64,
        msg_type.to_string(),
        address.to_string(),
        Bytes::from(payload.to_string()),
    )
    .unwrap()
}

fn dummy_in_only_message(msg_type: &str, address: &str, payload: &str) -> Message {
    dummy_message(TransferMode::InOnly, msg_type, address, payload)
}

/// Sends a message to whoever is registered for `address`.
fn send(client: &BrokerClient, broker: &Broker, address: &str, m: Message) -> TransportResult<()> {
    let channel = client.local.channel_for(&broker.registry, address)?;
    match channel.try_send(m) {
        Ok(()) => Ok(()),
        Err(_) => Err(TransportError::ConnectionClosed),
    }
}

#[test]
fn test_in_memory_message_delivery_in_only() {
    // 1. Initialize client
    let (mut broker, client, _replies) = test_client("test");

    // 2. Prepare the receiver
    let target_address = "arcella:core:test:receiver";
    let mut subscription = client
        .subscribe(&mut broker.registry, target_address.to_string(), SubscriberConfig::default())
        .expect("Subscription should succeed");

    // 3. Create a test message
    let original_message =
        dummy_in_only_message("test:ping", target_address, "hello from sender");

    // 4. Action: Send the message
    let send_result = send(&client, &broker, target_address, original_message.clone());
    assert!(send_result.is_ok(), "Send operation should succeed");

    // 5. Verification: Receiving the message on the receiver side
    let received_message = subscription.subscriber.try_recv();
    assert!(received_message.is_ok(), "Receiver should get a message");
    assert_eq!(
        original_message,
        received_message.unwrap(),
        "Received message should exactly match the sent message"
    );
}

#[test]
fn test_in_memory_message_delivery_to_unknown_address() {
    let (broker, client, _replies) = test_client("test");

    let msg = dummy_in_only_message("test:ping", "arcella:unknown:address", "");

    // Attempt to send to an unregistered address
    let result = send(&client, &broker, "arcella:unknown:address", msg);

    // Expect a `RecipientNotFound` error
    assert!(matches!(result, Err(TransportError::RecipientNotFound(_))));
}

#[test]
fn test_multi_recipient_routing() {
    let (mut broker, client, _replies) = test_client("test");

    // Register multiple receivers with different addresses
    let addresses = vec!["arcella:core:users", "arcella:web:api", "arcella:batch:processor"];
    let mut subscribers = Vec::new();
    let mut handles = Vec::new();
    for addr in &addresses {
        let subscription = client
            .subscribe(&mut broker.registry, addr.to_string(), SubscriberConfig::default())
            .expect("Subscription should succeed");
        subscribers.push(subscription.subscriber);
        handles.push(subscription.handle);
    }

    // Send mixed messages to different addresses
    let test_messages = vec![
        ("arcella:core:users", "user:created", "user1"),
        ("arcella:web:api", "http:request", "GET /api"),
        ("arcella:batch:processor", "batch:job", "job1"),
        ("arcella:core:users", "user:updated", "user2"),
        ("arcella:web:api", "http:response", "200 OK"),
        ("arcella:batch:processor", "batch:complete", "job1:done"),
        ("arcella:core:users", "user:deleted", "user3"),
    ];
    for (addr, msg_type, payload) in &test_messages {
        let msg = dummy_in_only_message(msg_type, addr, payload);
        let result = send(&client, &broker, addr, msg);
        assert!(result.is_ok(), "Send to {} should succeed", addr);
    }

    // Each receiver got only its messages in the correct order
    let msg1 = subscribers[0].try_recv().unwrap();
    assert_eq!(msg1.msg_type, "user:created");
    assert_eq!(msg1.payload, Bytes::from("user1"));

    let msg2 = subscribers[0].try_recv().unwrap();
    assert_eq!(msg2.msg_type, "user:updated");
    assert_eq!(msg2.payload, Bytes::from("user2"));

    let msg3 = subscribers[0].try_recv().unwrap();
    assert_eq!(msg3.msg_type, "user:deleted");
    assert_eq!(msg3.payload, Bytes::from("user3"));

    let msg4 = subscribers[1].try_recv().unwrap();
    assert_eq!(msg4.msg_type, "http:request");
    assert_eq!(msg4.payload, Bytes::from("GET /api"));

    let msg5 = subscribers[1].try_recv().unwrap();
    assert_eq!(msg5.msg_type, "http:response");
    assert_eq!(msg5.payload, Bytes::from("200 OK"));

    let msg6 = subscribers[2].try_recv().unwrap();
    assert_eq!(msg6.msg_type, "batch:job");
    assert_eq!(msg6.payload, Bytes::from("job1"));

    let msg7 = subscribers[2].try_recv().unwrap();
    assert_eq!(msg7.msg_type, "batch:complete");
    assert_eq!(msg7.payload, Bytes::from("job1:done"));

    // Channels are empty (no more messages)
    assert!(subscribers[0].try_recv().is_err(), "users channel should be empty");
    assert!(subscribers[1].try_recv().is_err(), "api channel should be empty");
    assert!(subscribers[2].try_recv().is_err(), "processor channel should be empty");

    drop(handles);
}

#[test]
fn test_dynamic_registration() {
    let (mut broker, client, _replies) = test_client("test");

    // Sending before registration should return an error
    let msg = dummy_in_only_message("test", "arcella:test", "");
    assert!(send(&client, &broker, "arcella:test", msg.clone()).is_err());

    // Registration
    let mut subscription = client
        .subscribe(&mut broker.registry, "arcella:test".to_string(), SubscriberConfig::default())
        .expect("Subscription should succeed");

    // Now sending should succeed
    assert!(send(&client, &broker, "arcella:test", msg).is_ok());
    assert!(subscription.subscriber.try_recv().is_ok());

    // Unregistration
    subscription.handle.close(&mut broker.registry);

    // Should return an error again
    let msg2 = dummy_in_only_message("test2", "arcella:test", "");
    assert!(send(&client, &broker, "arcella:test", msg2).is_err());
}

#[test]
fn test_subscription_cleanup_and_re_registration() {
    let (mut broker, client, _replies) = test_client("test");
    let addr = "arcella:test:duplicate";

    // 1. First subscription
    let sub1 = client
        .subscribe(&mut broker.registry, addr.to_string(), SubscriberConfig::default())
        .expect("First subscription should succeed");

    // 2. Second subscription to the same address
    let sub2_result =
        client.subscribe(&mut broker.registry, addr.to_string(), SubscriberConfig::default());
    assert!(
        matches!(sub2_result, Err(RegistryError::AddressAlreadyOccupied(_))),
        "Second subscription to the same address must be rejected with AddressAlreadyOccupied"
    );

    // 3. The first subscription ends
    sub1.handle.close(&mut broker.registry);

    let mut sub3 = client
        .subscribe(&mut broker.registry, addr.to_string(), SubscriberConfig::default())
        .expect("Subscription after drop should succeed");

    // 4. Attempt to send a message
    let msg = dummy_in_only_message("test", addr, "hello");

    // Send should succeed, as sub3 is alive and ready to receive.
    let result = send(&client, &broker, addr, msg);

    assert!(!result.is_err());
    assert!(!sub3.subscriber.try_recv().is_err(), "sub3 received the message");
}

#[test]
fn client_addresses_are_exclusive() {
    let (mut broker, client, _replies) = test_client("test");
    assert_eq!(client.client_address(), "test");
    assert_eq!(client.reply_handle.address(), "test");
    match broker.client(ClientConfig::default(), "test".to_string()) {
        Err(BrokerError::Registry(RegistryError::AddressAlreadyOccupied(address))) => {
            assert_eq!(address, "test")
        }
        _ => panic!("the address is occupied"),
    }
    client.close(&mut broker.registry);
    assert!(!broker.registry.has_route("test"));
    assert!(broker.client(ClientConfig::default(), "test".to_string()).is_ok());
}

#[test]
fn subscriptions_to_patterns_receive() {
    let (mut broker, client, _replies) = test_client("test");
    let mut subscription = client
        .subscribe(&mut broker.registry, "arcella:web:**".to_string(), SubscriberConfig::default())
        .unwrap();
    assert_eq!(subscription.subscriber.address(), "arcella:web:**");
    let msg = dummy_in_only_message("test", "arcella:web:a:b", "x");
    assert!(send(&client, &broker, "arcella:web:a:b", msg.clone()).is_ok());
    assert_eq!(subscription.subscriber.try_recv().unwrap(), msg);
    assert_eq!(subscription.subscriber.try_recv().unwrap_err(), TryRecvError::Empty);
}

fn shared() -> SubscriberConfig {
    SubscriberConfig { channel_capacity: 8, routing_policy: RoutingPolicy::LoadBalanced }
}

#[test]
fn policies_do_not_mix() {
    let (mut broker, client, _replies) = test_client("test");
    let registry: &mut LocalRegistry = &mut broker.registry;
    client.subscribe(registry, "one".to_string(), SubscriberConfig::default()).unwrap();
    match client.subscribe(registry, "one".to_string(), shared()) {
        Err(RegistryError::PolicyMismatch(address)) => assert_eq!(address, "one"),
        _ => panic!("the address has an exclusive subscription"),
    }
    client.subscribe(registry, "many".to_string(), shared()).unwrap();
    match client.subscribe(registry, "many".to_string(), SubscriberConfig::default()) {
        Err(RegistryError::AddressAlreadyOccupied(address)) => assert_eq!(address, "many"),
        _ => panic!("the address has a group"),
    }
    match client.subscribe(registry, "many:**".to_string(), shared()) {
        Err(RegistryError::WildcardConflict(address, other)) => {
            assert_eq!((address.as_str(), other.as_str()), ("many:**", "many"))
        }
        _ => panic!("the pattern covers the address of a group"),
    }
}

#[test]
fn consumers_of_a_group_do_not_poll() {
    let (mut broker, client, _replies) = test_client("test");
    let mut subscription =
        client.subscribe(&mut broker.registry, "many".to_string(), shared()).unwrap();
    assert_eq!(subscription.subscriber.try_recv().unwrap_err(), TryRecvError::Empty);
}

#[test]
fn the_last_consumer_frees_the_address() {
    let (mut broker, client, _replies) = test_client("test");
    let first = client.subscribe(&mut broker.registry, "many".to_string(), shared()).unwrap();
    let second = client.subscribe(&mut broker.registry, "many".to_string(), shared()).unwrap();
    assert!(first.dispatcher.is_some());
    assert!(second.dispatcher.is_none());
    let target = broker.registry.lookup("many").unwrap();
    let endpoint = InMemoryEndpoint::new(target, &broker.registry.store);
    assert!(endpoint.is_valid(&broker.registry.store));
    assert!(!first.handle.close(&mut broker.registry));
    assert!(broker.registry.has_route("many"));
    assert!(endpoint.is_valid(&broker.registry.store));
    assert!(second.handle.close(&mut broker.registry));
    assert!(!broker.registry.has_route("many"));
    assert!(!endpoint.is_valid(&broker.registry.store));
    assert_eq!(target.version(&broker.registry.store), 2);
    assert_eq!(
        endpoint.delivery(&broker.registry.store).err(),
        Some(TransportError::ConnectionClosed)
    );
    assert!(client.subscribe(&mut broker.registry, "many".to_string(), shared()).is_ok());
}

#[test]
fn endpoints_end_with_their_subscription() {
    let (mut broker, client, _replies) = test_client("test");
    let registry: &mut LocalRegistry = &mut broker.registry;
    let first =
        client.subscribe(registry, "a".to_string(), SubscriberConfig::default()).unwrap();
    let transport = InMemoryTransport::new();
    let endpoint = transport.resolve(registry, "a").unwrap();
    assert_eq!(endpoint.cached_version, 1);
    assert!(endpoint.is_valid(&registry.store));
    assert!(endpoint.valid_when(&registry.store, false));
    assert!(!endpoint.valid_when(&registry.store, true));
    assert!(transport.channel_of(registry, &endpoint).is_ok());
    first.handle.close(registry);
    assert!(!endpoint.is_valid(&registry.store));
    assert!(!endpoint.valid_when(&registry.store, false));
    let _second =
        client.subscribe(registry, "a".to_string(), SubscriberConfig::default()).unwrap();
    assert!(!endpoint.is_valid(&registry.store));
    assert!(transport.resolve(registry, "a").unwrap().is_valid(&registry.store));
    assert_eq!(
        transport.resolve(registry, "b"),
        Err(TransportError::RecipientNotFound("b".to_string()))
    );
}

#[test]
fn endpoints_stay_invalid_however_often_their_slot_changes() {
    let (mut broker, client, _replies) = test_client("test");
    let registry: &mut LocalRegistry = &mut broker.registry;
    let _subscription =
        client.subscribe(registry, "a".to_string(), SubscriberConfig::default()).unwrap();
    let _other =
        client.subscribe(registry, "b".to_string(), SubscriberConfig::default()).unwrap();
    let endpoint = InMemoryTransport::new().resolve(registry, "a").unwrap();
    let other = InMemoryTransport::new().resolve(registry, "b").unwrap();
    let slot = match endpoint.target {
        RouteTarget::Single(slot) => slot,
        RouteTarget::LoadBalanced(_) => panic!("an exclusive subscription has a slot"),
    };
    let mut kept = Vec::new();
    for _ in 0..5 {
        let (tx, rx) = create_channel(1);
        kept.push(rx);
        registry.store.update_slot(slot, tx);
        assert!(!endpoint.target.is_closed(&registry.store));
        assert!(!endpoint.is_valid(&registry.store));
        registry.store.remove_slot(slot);
        assert!(!endpoint.is_valid(&registry.store));
    }
    assert_eq!(endpoint.target.version(&registry.store), 11);
    assert!(other.is_valid(&registry.store));
}

#[test]
fn closed_channels_are_not_resolved() {
    let (mut broker, client, _replies) = test_client("test");
    let registry: &mut LocalRegistry = &mut broker.registry;
    let transport = InMemoryTransport::new();
    let subscription =
        client.subscribe(registry, "a".to_string(), SubscriberConfig::default()).unwrap();
    let slot = match transport.resolve(registry, "a").unwrap().target {
        RouteTarget::Single(slot) => slot,
        RouteTarget::LoadBalanced(_) => panic!("an exclusive subscription has a slot"),
    };
    assert!(transport.resolve_when(registry, "a", false).is_ok());
    assert_eq!(
        transport.resolve_when(registry, "a", true),
        Err(TransportError::ConnectionClosed)
    );

    // The receiver is gone.
    drop(subscription.subscriber);
    assert_eq!(transport.resolve(registry, "a"), Err(TransportError::ConnectionClosed));
    let mut publisher = client.publisher("a".to_string());
    assert_eq!(
        publisher.get_or_resolve_endpoint(registry),
        Err(TransportError::ConnectionClosed)
    );

    // The channel was taken out, but the address still leads to the slot.
    registry.store.remove_slot(slot);
    assert!(registry.has_route("a"));
    assert_eq!(
        transport.resolve_when(registry, "a", false),
        Err(TransportError::ConnectionClosed)
    );
    assert_eq!(
        transport.resolve(registry, "b"),
        Err(TransportError::RecipientNotFound("b".to_string()))
    );
}

#[test]
fn endpoints_survive_what_happens_to_others() {
    let (mut broker, client, _replies) = test_client("test");
    let registry: &mut LocalRegistry = &mut broker.registry;
    let _subscription =
        client.subscribe(registry, "a".to_string(), SubscriberConfig::default()).unwrap();
    let endpoint = InMemoryTransport::new().resolve(registry, "a").unwrap();
    let other = client.subscribe(registry, "b".to_string(), SubscriberConfig::default()).unwrap();
    let many = client.subscribe(registry, "many".to_string(), shared()).unwrap();
    let group = registry.lookup("many").unwrap().load_balanced_group().unwrap();
    let released = InMemoryTransport::new().resolve(registry, "many").unwrap();
    assert!(endpoint.is_valid(&registry.store));
    other.handle.close(registry);
    many.handle.close(registry);
    registry.store.release_group(group);
    assert!(endpoint.is_valid(&registry.store));
    assert!(!released.is_valid(&registry.store));
    let _again = client.subscribe(registry, "many".to_string(), shared()).unwrap();
    assert!(endpoint.is_valid(&registry.store));
    assert!(!released.is_valid(&registry.store));
}

#[test]
fn endpoints_end_with_their_receiver() {
    let (mut broker, client, _replies) = test_client("test");
    let registry: &mut LocalRegistry = &mut broker.registry;
    let subscription =
        client.subscribe(registry, "a".to_string(), SubscriberConfig::default()).unwrap();
    let endpoint = InMemoryTransport::new().resolve(registry, "a").unwrap();
    drop(subscription.subscriber);
    assert!(!endpoint.is_valid(&registry.store));
}

#[test]
fn transport_does_not_make_requests() {
    let transport = InMemoryTransport::new();
    let message = dummy_message(TransferMode::InOut, "t", "a", "");
    match transport.request("a", message.clone()) {
        Err(TransportError::Io(IoErrorKind::Unsupported, text)) => assert_eq!(
            text,
            "Use BrokerClient::request for InOut mode to ensure proper reply_to injection and per-client dispatching"
        ),
        _ => panic!("requests are not supported"),
    }
    let endpoint = InMemoryEndpoint { target: RouteTarget::Single(0), cached_version: 1 };
    match transport.request_to(&endpoint, message) {
        Err(TransportError::Io(IoErrorKind::Unsupported, text)) => {
            assert_eq!(text, "Use BrokerClient::request for InOut mode")
        }
        _ => panic!("requests are not supported"),
    }
    assert_eq!(transport.receive(), Err(TransportError::ConnectionClosed));
    assert_eq!(transport.close(), Ok(()));
}

#[test]
fn publishers_keep_their_endpoint_while_it_is_valid() {
    let (mut broker, client, _replies) = test_client("test");
    let registry: &mut LocalRegistry = &mut broker.registry;
    let mut publisher: Publisher = client.publisher("a".to_string());
    assert_eq!(publisher.address(), "a");
    assert_eq!(
        publisher.get_or_resolve_endpoint(registry),
        Err(TransportError::RecipientNotFound("a".to_string()))
    );
    let first =
        client.subscribe(registry, "a".to_string(), SubscriberConfig::default()).unwrap();
    let endpoint = publisher.get_or_resolve_endpoint(registry).unwrap();
    assert_eq!(publisher.cached_endpoint, Some(endpoint));
    assert_eq!(publisher.get_or_resolve_endpoint(registry).unwrap(), endpoint);
    first.handle.close(registry);
    let _second =
        client.subscribe(registry, "a".to_string(), SubscriberConfig::default()).unwrap();
    let other = publisher.get_or_resolve_endpoint(registry).unwrap();
    assert_ne!(other, endpoint);
    assert_eq!(publisher.cached_endpoint, Some(other));
}

#[test]
fn publishers_resolve_when_their_endpoint_is_not_valid() {
    let (mut broker, client, _replies) = test_client("test");
    let registry: &mut LocalRegistry = &mut broker.registry;
    let kept = InMemoryEndpoint { target: RouteTarget::Single(77), cached_version: 1 };
    let mut publisher = client.publisher("a".to_string());
    publisher.cached_endpoint = Some(kept);
    assert_eq!(publisher.endpoint_when(registry, true, true), Ok(kept));
    assert_eq!(
        publisher.endpoint_when(registry, false, false),
        Err(TransportError::RecipientNotFound("a".to_string()))
    );
    assert_eq!(publisher.cached_endpoint, Some(kept));
    let _subscription =
        client.subscribe(registry, "a".to_string(), SubscriberConfig::default()).unwrap();
    assert_eq!(
        publisher.endpoint_when(registry, false, true),
        Err(TransportError::ConnectionClosed)
    );
    assert_eq!(publisher.cached_endpoint, Some(kept));
    let found = publisher.endpoint_when(registry, false, false).unwrap();
    assert_ne!(found, kept);
    assert_eq!(publisher.cached_endpoint, Some(found));
}

#[test]
fn publishers_forget_an_endpoint_that_was_closed() {
    let endpoint = InMemoryEndpoint { target: RouteTarget::Single(0), cached_version: 1 };
    let mut publisher = Publisher::new("a".to_string(), InMemoryTransport::new());
    publisher.cached_endpoint = Some(endpoint);
    assert_eq!(publisher.after_send(Ok(())), Ok(()));
    assert_eq!(publisher.after_send(Err(TransportError::Timeout)), Err(TransportError::Timeout));
    assert_eq!(publisher.cached_endpoint, Some(endpoint));
    assert_eq!(
        publisher.after_send(Err(TransportError::ConnectionClosed)),
        Err(TransportError::ConnectionClosed)
    );
    assert_eq!(publisher.cached_endpoint, None);
    publisher.cached_endpoint = Some(endpoint);
    publisher.invalidate_cache();
    assert_eq!(publisher.cached_endpoint, None);
}

#[test]
fn requests_are_answered_at_the_client() {
    let (broker, mut client, mut replies) = test_client("me");
    let mut message = dummy_message(TransferMode::InOut, "ask", "other", "?");
    message.reply_to = "somebody:else".to_string();
    let (request, guard, mut receiver) = client.begin_request(message.clone()).unwrap();
    assert_eq!(request.reply_to, "me");
    assert_eq!(request.payload, message.payload);
    assert_eq!(guard.message_id, message.header.message_id);
    assert_eq!(
        client.begin_request(message.clone()).err(),
        Some(TransportError::Registry(RegistryError::WaiterAlreadyExists))
    );

    let response = dummy_message(TransferMode::InOnly, "answer", "me", "!");
    assert!(send(&client, &broker, &request.reply_to, response.clone()).is_ok());
    let (waiter, reply) = client.reply_dispatcher.dispatch(replies.try_recv().unwrap()).unwrap();
    assert!(waiter.send(reply).is_ok());
    assert_eq!(receiver.try_recv().unwrap(), response);
    assert!(client.begin_request(message).is_ok());
}

#[test]
fn responses_reach_only_their_request() {
    let mut dispatcher = ReplyDispatcher::new();
    let (one, mut one_reply) = dispatcher.register_waiter([1u8; 16]).unwrap();
    let (_two, mut two_reply) = dispatcher.register_waiter([2u8; 16]).unwrap();
    assert_eq!(
        dispatcher.register_waiter([1u8; 16]).unwrap_err(),
        RegistryError::WaiterAlreadyExists
    );
    let response = dummy_in_only_message("t", "a", "for one");
    let (waiter, reply) = dispatcher.dispatch(response.clone()).unwrap();
    assert_eq!(reply, response);
    assert!(waiter.send(reply).is_ok());
    assert_eq!(one_reply.try_recv().unwrap(), response);
    assert!(two_reply.try_recv().is_err());
    assert!(dispatcher.dispatch(response.clone()).is_none());

    assert!(dispatcher.take_waiter(&response).is_none());
    let (again, mut again_reply) = dispatcher.register_waiter([1u8; 16]).unwrap();
    assert_eq!(again, one);
    again.release(&mut dispatcher);
    assert!(dispatcher.dispatch(response).is_none());
    assert!(again_reply.try_recv().is_err());

    dispatcher.remove_waiter(&[3u8; 16]);
    dispatcher.clear();
    assert!(dispatcher.register_waiter([2u8; 16]).is_ok());
}

#[test]
fn outcomes_of_waiting_for_a_reply() {
    let response = dummy_in_only_message("t", "a", "x");
    assert_eq!(
        BrokerClient::request_outcome(Wait::Done(Some(response.clone()))),
        Ok(response)
    );
    assert_eq!(
        BrokerClient::request_outcome(Wait::Done(None)),
        Err(TransportError::ConnectionClosed)
    );
    assert_eq!(BrokerClient::request_outcome(Wait::Elapsed), Err(TransportError::Timeout));
    assert_eq!(BrokerConfig::new().request_timeout().as_secs(), 30);
}

#[test]
fn plain_tables_hold_one_recipient_per_address() {
    let mut table = registry::LocalRegistry::new();
    assert_eq!(table.lookup("a"), None);
    table.register("a".to_string(), 1);
    table.register("b".to_string(), 2);
    table.register("a".to_string(), 3);
    assert_eq!(table.lookup("a"), Some(3));
    assert_eq!(table.lookup("b"), Some(2));
    assert!(table.has_local("a"));
    table.unregister("a");
    table.unregister("c");
    assert!(!table.has_local("a"));
    assert!(table.has_local("b"));
}

#[test]
fn plain_delivery_finds_recipients() {
    let mut table = registry::LocalRegistry::default();
    table.register("a".to_string(), 1);
    let (mut transport, incoming) = in_memory::InMemoryTransport::new(table);
    assert_eq!(incoming.load().max_capacity, 1024);
    assert_eq!(transport.recipient("a"), Ok(1));
    assert_eq!(
        transport.recipient("b"),
        Err(TransportError::RecipientNotFound("b".to_string()))
    );
    let message = dummy_in_only_message("t", "a", "x");
    let request = in_memory::InMemoryTransport::as_request(message.clone());
    assert_eq!(request.transfer_mode(), Ok(TransferMode::InOut));
    assert_eq!(request.payload, message.payload);
    assert!(incoming.try_send(message.clone()).is_ok());
    assert_eq!(
        in_memory::InMemoryTransport::receive_outcome(transport.incoming.try_recv().ok()),
        Ok(message.clone())
    );
    assert_eq!(
        in_memory::InMemoryTransport::receive_outcome(None),
        Err(TransportError::ConnectionClosed)
    );
    assert_eq!(in_memory::InMemoryTransport::send_outcome("a", Ok(())), Ok(()));
    assert_eq!(
        in_memory::InMemoryTransport::send_outcome(
            "a",
            Err(arcella_broker::broker_core::transport::channel::SendError(message))
        ),
        Err(TransportError::RecipientNotFound("a".to_string()))
    );
}
