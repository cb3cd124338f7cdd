//! Clients of the broker.
//!
//! A client has an address of its own, to which the replies to its requests come. It
//! subscribes to addresses, and sends messages to them.

pub mod in_memory;
pub mod laws;
pub mod operation_laws;
pub mod publisher;
pub mod registry;
pub mod reply_dispatcher;
pub mod subscriber;

use tokio::sync::oneshot;
use vstd::prelude::*;
use vstd::utf8::encode_utf8;

use crate::broker::Broker;
use crate::broker_core::registry::error::RegistryError;
use crate::broker_core::registry::load_balanced_group::Dispatcher;
use crate::broker_core::registry::routing::{RouteTarget, RoutingPolicy};
use crate::broker_core::registry::slot::SubscriptionSlot;
use crate::broker_core::registry::{refuses, LocalRegistry, RegistryView, Verdict};
use crate::broker_core::transport::channel::{create_channel, Wait};
use crate::broker_core::transport::in_memory::InMemoryTransport;
use crate::broker_core::transport::raw::{queue_bound, reply_receiver};
use crate::broker_core::transport::{TransportError, TransportResult};
use crate::config::{ClientConfig, SubscriberConfig};
use crate::protocol::{Message, MessageView};
use publisher::Publisher;
use reply_dispatcher::{waiter_key, ReplyDispatcher, WaiterGuard};
use subscriber::{CleanupStrategy, Subscriber, SubscriberMode, SubscriptionHandle};

verus! {

/// How many requests the consumers of a group can have waiting.
pub const REQUEST_CHANNEL_CAPACITY: usize = 1000;

/// A subscription: where its messages come in, what keeps it alive and, if it made a new
/// group, what the dispatcher of the group needs.
pub struct Subscription {
    /// Where the messages come in.
    pub subscriber: Subscriber,
    /// What keeps it alive.
    pub handle: SubscriptionHandle,
    /// What the dispatcher of a new group needs.
    pub dispatcher: Option<Dispatcher>,
}

/// Whether `after` is `before` with an exclusive subscription to `address` whose channel holds
/// `capacity` messages, and `subscriber` is the receiving side of that channel.
pub open spec fn exclusive_subscription(
    before: RegistryView,
    after: RegistryView,
    address: Seq<char>,
    capacity: usize,
    subscriber: Subscriber,
) -> bool {
    let channel = after.store.slots[before.store.next_id].sender->0;
    &&& after == before.subscribed(encode_utf8(address), channel)
    &&& channel.limit() == capacity
    &&& subscriber.mode == SubscriberMode::Push(channel.receiver())
    &&& subscriber.address@ == address
}

/// Whether `after` is `before` with a new group for `address` that has one consumer, and
/// `subscription` is the subscription of that consumer.
pub open spec fn group_subscription(
    before: RegistryView,
    after: RegistryView,
    address: Seq<char>,
    capacity: usize,
    subscription: Subscription,
) -> bool {
    let slot = before.store.next_id;
    let id = (slot + 1) as u64;
    let channel = after.store.slots[slot].sender->0;
    let group = after.store.groups[id];
    &&& after.routes == before.routes.bind(encode_utf8(address), RouteTarget::LoadBalanced(id))
    &&& after.store.slots == before.store.slots.insert(
        slot,
        SubscriptionSlot { sender: Some(channel), version: 1 },
    )
    &&& after.store.groups == before.store.groups.insert(id, group)
    &&& after.store.next_id == slot + 2
    &&& channel.limit() == capacity
    &&& group.slot == slot
    &&& group.dispatcher_running
    &&& group.version == 1
    &&& group.req_tx.limit() == REQUEST_CHANNEL_CAPACITY
    &&& group.address@ == address
    &&& group.active_consumers == 1
    &&& subscription.dispatcher matches Some(dispatcher)
    &&& dispatcher.requests == group.req_tx.receiver()
    &&& dispatcher.messages == channel.receiver()
    &&& dispatcher.slot == slot
    &&& dispatcher.address@ == address
    &&& subscription.subscriber.mode == SubscriberMode::Pull(group.req_tx)
    &&& subscription.subscriber.address@ == address
    &&& subscription.handle.address@ == address
    &&& subscription.handle.cleanup == (CleanupStrategy::LoadBalanced { group: id })
}

/// Whether `after` is `before` with one more consumer in the group `id`, and `subscription`
/// is the subscription of that consumer.
pub open spec fn joined_subscription(
    before: RegistryView,
    after: RegistryView,
    address: Seq<char>,
    id: u64,
    subscription: Subscription,
) -> bool {
    &&& after == RegistryView { store: before.store.consumer_joined(id), ..before }
    &&& subscription.dispatcher is None
    &&& subscription.subscriber.mode == SubscriberMode::Pull(before.store.groups[id].req_tx)
    &&& subscription.subscriber.address@ == address
    &&& subscription.handle.address@ == address
    &&& subscription.handle.cleanup == (CleanupStrategy::LoadBalanced { group: id })
}

/// A client of the broker.
pub struct BrokerClient {
    /// How messages are delivered.
    pub local: InMemoryTransport,
    /// The address of the client, to which replies come.
    pub client_address: String,
    /// What keeps that address occupied.
    pub reply_handle: SubscriptionHandle,
    /// The requests of the client that wait for a reply.
    pub reply_dispatcher: ReplyDispatcher,
}

impl BrokerClient {
    /// Registers a client under its address, and returns where the replies to its requests
    /// come in. The address is refused as any other that is registered.
    pub fn new(broker: &mut Broker, config: ClientConfig, client_address: String) -> (r: Result<
        (Self, Subscriber),
        RegistryError,
    >)
        requires
            old(broker).registry@.inv(),
            old(broker).registry@.store.next_id < u64::MAX,
            0 < config.reply_channel_capacity <= queue_bound(),
        ensures
            final(broker).registry@.inv(),
            final(broker).config == old(broker).config,
            match old(broker).registry@.verdict(encode_utf8(client_address@)) {
                Verdict::Free => {
                    &&& r matches Ok((client, replies))
                    &&& exclusive_subscription(
                        old(broker).registry@,
                        final(broker).registry@,
                        client_address@,
                        config.reply_channel_capacity,
                        replies,
                    )
                    &&& client.client_address@ == client_address@
                    &&& client.reply_handle.address@ == client_address@
                    &&& client.reply_handle.cleanup == (CleanupStrategy::Exclusive {
                        slot: old(broker).registry@.store.next_id,
                    })
                    &&& client.reply_dispatcher.waiters@ == Map::<
                        u128,
                        oneshot::Sender<Message>,
                    >::empty()
                },
                verdict => {
                    &&& r matches Err(e) && refuses(e, client_address@, verdict)
                    &&& final(broker).registry@ == old(broker).registry@
                },
            },
            old(broker).registry@.conflict_is_registered(encode_utf8(client_address@)),
    {
        let (sender, receiver) = create_channel(config.reply_channel_capacity);
        match broker.registry.register_channel(client_address.clone(), sender) {
            Ok(slot) => {
                let replies = Subscriber::new_push(receiver, client_address.clone());
                let reply_handle = SubscriptionHandle::new_exclusive(client_address.clone(), slot);
                let client = BrokerClient {
                    local: InMemoryTransport::new(),
                    client_address,
                    reply_handle,
                    reply_dispatcher: ReplyDispatcher::new(),
                };
                Ok((client, replies))
            },
            Err(e) => Err(e),
        }
    }

    /// The address of the client.
    pub fn client_address(&self) -> (r: &str)
        ensures
            r@ == self.client_address@,
    {
        self.client_address.as_str()
    }

    /// Subscribes to an address or a pattern.
    ///
    /// An exclusive subscription has the address to itself. A load-balanced one joins the
    /// group of the address, or makes a new one; an address with an exclusive subscription is
    /// refused.
    pub fn subscribe(
        &self,
        registry: &mut LocalRegistry,
        address: String,
        config: SubscriberConfig,
    ) -> (r: Result<Subscription, RegistryError>)
        requires
            old(registry)@.inv(),
            old(registry)@.store.next_id < u64::MAX - 1,
            0 < config.channel_capacity <= queue_bound(),
        ensures
            final(registry)@.inv(),
            r is Err ==> final(registry)@ == old(registry)@,
            match (
                config.routing_policy,
                old(registry)@.verdict(encode_utf8(address@)),
            ) {
                (RoutingPolicy::Exclusive, Verdict::Free) => {
                    &&& r matches Ok(subscription)
                    &&& exclusive_subscription(
                        old(registry)@,
                        final(registry)@,
                        address@,
                        config.channel_capacity,
                        subscription.subscriber,
                    )
                    &&& subscription.handle.address@ == address@
                    &&& subscription.handle.cleanup == (CleanupStrategy::Exclusive {
                        slot: old(registry)@.store.next_id,
                    })
                    &&& subscription.dispatcher is None
                },
                (RoutingPolicy::LoadBalanced, Verdict::Free) => r matches Ok(subscription)
                    && group_subscription(
                    old(registry)@,
                    final(registry)@,
                    address@,
                    config.channel_capacity,
                    subscription,
                ),
                (
                    RoutingPolicy::LoadBalanced,
                    Verdict::Occupied(RouteTarget::LoadBalanced(id)),
                ) => if old(registry)@.store.groups.contains_key(id) {
                    r matches Ok(subscription) && joined_subscription(
                        old(registry)@,
                        final(registry)@,
                        address@,
                        id,
                        subscription,
                    )
                } else {
                    r matches Err(RegistryError::PolicyMismatch(text)) && text@ == address@
                },
                (RoutingPolicy::LoadBalanced, Verdict::Occupied(RouteTarget::Single(_))) => r
                    matches Err(RegistryError::PolicyMismatch(text)) && text@ == address@,
                (_, verdict) => r matches Err(e) && refuses(e, address@, verdict),
            },
            old(registry)@.conflict_is_registered(encode_utf8(address@)),
    {
        match config.routing_policy {
            RoutingPolicy::Exclusive => {
                let (sender, receiver) = create_channel(config.channel_capacity);
                match registry.register_channel(address.clone(), sender) {
                    Ok(slot) => {
                        let subscriber = Subscriber::new_push(receiver, address.clone());
                        let handle = SubscriptionHandle::new_exclusive(address, slot);
                        Ok(Subscription { subscriber, handle, dispatcher: None })
                    },
                    Err(e) => Err(e),
                }
            },
            RoutingPolicy::LoadBalanced => BrokerClient::subscribe_load_balanced(
                registry,
                address,
                config.channel_capacity,
            ),
        }
    }

    /// Joins the group of an address, or makes a new one.
    fn subscribe_load_balanced(
        registry: &mut LocalRegistry,
        address: String,
        channel_capacity: usize,
    ) -> (r: Result<Subscription, RegistryError>)
        requires
            old(registry)@.inv(),
            old(registry)@.store.next_id < u64::MAX - 1,
            0 < channel_capacity <= queue_bound(),
        ensures
            final(registry)@.inv(),
            r is Err ==> final(registry)@ == old(registry)@,
            match old(registry)@.verdict(encode_utf8(address@)) {
                Verdict::Free => r matches Ok(subscription) && group_subscription(
                    old(registry)@,
                    final(registry)@,
                    address@,
                    channel_capacity,
                    subscription,
                ),
                Verdict::Occupied(RouteTarget::LoadBalanced(id)) => if old(
                    registry,
                )@.store.groups.contains_key(id) {
                    r matches Ok(subscription) && joined_subscription(
                        old(registry)@,
                        final(registry)@,
                        address@,
                        id,
                        subscription,
                    )
                } else {
                    r matches Err(RegistryError::PolicyMismatch(text)) && text@ == address@
                },
                Verdict::Occupied(RouteTarget::Single(_)) => r matches Err(
                    RegistryError::PolicyMismatch(text),
                ) && text@ == address@,
                verdict => r matches Err(e) && refuses(e, address@, verdict),
            },
            old(registry)@.conflict_is_registered(encode_utf8(address@)),
    {
        let ghost before = registry@;
        let existing = match registry.find_existing(address.as_str()) {
            Ok(existing) => existing,
            Err(e) => {
                return Err(e);
            },
        };
        let mut dispatcher: Option<Dispatcher> = None;
        let target = match existing {
            Some(target) => target,
            None => {
                let (sender, receiver) = create_channel(channel_capacity);
                let slot: u64 = registry.store.add_slot(SubscriptionSlot::new(sender));
                let (target, made) = RouteTarget::new_load_balanced(
                    &mut registry.store,
                    slot,
                    receiver,
                    REQUEST_CHANNEL_CAPACITY,
                    address.clone(),
                );
                registry.bind(address.as_str(), target);
                dispatcher = Some(made);
                target
            },
        };
        let group: u64 = match target.load_balanced_group() {
            Some(group) => group,
            None => {
                return Err(RegistryError::PolicyMismatch(address));
            },
        };
        match target.request_sender(&mut registry.store) {
            Some(handle) => {
                let subscriber = Subscriber::new_pull(handle, address.clone());
                let handle = SubscriptionHandle::new_load_balanced(address, group);
                assert(registry@.store.groups =~= before.store.groups.insert(
                    group,
                    registry@.store.groups[group],
                ));
                Ok(Subscription { subscriber, handle, dispatcher })
            },
            None => Err(RegistryError::PolicyMismatch(address)),
        }
    }

    /// A publisher for an address.
    pub fn publisher(&self, address: String) -> (r: Publisher)
        ensures
            r.address == address,
            r.cached_endpoint is None,
    {
        Publisher::new(address, self.local)
    }

    /// Prepares a request: its reply is to come to this client, whatever the message said,
    /// and the request waits for it. Returns the message to send, what keeps the request
    /// waiting and where the reply will come.
    pub fn begin_request(&mut self, message: Message) -> (r: TransportResult<
        (Message, WaiterGuard, oneshot::Receiver<Message>),
    >)
        ensures
            final(self).client_address == old(self).client_address,
            final(self).reply_handle == old(self).reply_handle,
            final(self).local == old(self).local,
            old(self).reply_dispatcher.awaits(message@.header.message_id) ==> {
                &&& r matches Err(TransportError::Registry(RegistryError::WaiterAlreadyExists))
                &&& final(self).reply_dispatcher.waiters@ == old(self).reply_dispatcher.waiters@
            },
            !old(self).reply_dispatcher.awaits(message@.header.message_id) ==> {
                &&& r matches Ok((request, guard, receiver))
                &&& request@ == (MessageView { reply_to: old(self).client_address@, ..message@ })
                &&& guard.message_id@ == message@.header.message_id
                &&& final(self).reply_dispatcher.waiters@ == old(
                    self,
                ).reply_dispatcher.waiters@.insert(
                    waiter_key(message@.header.message_id),
                    final(self).reply_dispatcher.waiter(message@.header.message_id),
                )
                &&& receiver == reply_receiver(
                    final(self).reply_dispatcher.waiter(message@.header.message_id),
                )
            },
    {
        let mut request = message;
        request.reply_to = self.client_address.clone();
        match self.reply_dispatcher.register_waiter(request.header.message_id) {
            Ok((guard, receiver)) => Ok((request, guard, receiver)),
            Err(e) => Err(TransportError::from(e)),
        }
    }

    /// What a request that waited for its reply comes to: the reply, or that there will be
    /// none, or that the time is over.
    pub fn request_outcome(waited: Wait<Option<Message>>) -> (r: TransportResult<Message>)
        ensures
            match waited {
                Wait::Done(Some(response)) => r == Ok::<Message, TransportError>(response),
                Wait::Done(None) => r == Err::<Message, TransportError>(
                    TransportError::ConnectionClosed,
                ),
                Wait::Elapsed => r == Err::<Message, TransportError>(TransportError::Timeout),
            },
    {
        match waited {
            Wait::Done(Some(response)) => Ok(response),
            Wait::Done(None) => Err(TransportError::ConnectionClosed),
            Wait::Elapsed => Err(TransportError::Timeout),
        }
    }

    /// Ends the client: its address is free again, and its requests wait no more.
    pub fn close(self, registry: &mut LocalRegistry)
        requires
            old(registry)@.inv(),
        ensures
            final(registry)@ == self.reply_handle.ended(old(registry)@),
            final(registry)@.inv(),
    {
        let mut replies = self.reply_dispatcher;
        replies.clear();
        let _ = self.reply_handle.close(registry);
    }
}

} // verus!
