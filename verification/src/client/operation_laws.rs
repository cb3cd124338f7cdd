//! What clients and their subscriptions do, in terms of who receives and who waits.

use tokio::sync::oneshot;
use vstd::prelude::*;
use vstd::utf8::encode_utf8;

use super::in_memory::InMemoryTransport as PlainTransport;
use super::registry::LocalRegistry as PlainTable;
use super::reply_dispatcher::{lemma_waiter_key, waiter_key, ReplyDispatcher, WaiterGuard};
use super::subscriber::{CleanupStrategy, Subscriber, SubscriberMode, SubscriptionHandle};
use super::{BrokerClient, Subscription};
use crate::broker::Broker;
use crate::broker_core::registry::error::RegistryError;
use crate::broker_core::registry::laws::{lemma_bind_entry, registrable};
use crate::broker_core::registry::operation_laws::{
    lemma_group_unbound, lemma_unregistered, lemma_verdict, one_less, only_entry_changed,
    others_kept, refused_for, rest_kept, subscription_taken, taken,
};
use crate::broker_core::registry::routing::{RouteTarget, RoutingPolicy};
use crate::broker_core::registry::{LocalRegistry, RegistryView};
use crate::broker_core::transport::channel::{MessageReceiver, TryRecvError};
use crate::broker_core::transport::raw::reply_receiver;
use crate::broker_core::transport::{TransportError, TransportResult};
use crate::config::{ClientConfig, SubscriberConfig};
use crate::error::BrokerError;
use crate::protocol::{Message, MESSAGE_ID_LEN};

verus! {

// ---------------------------------------------------------------------------------------
// Ending a subscription
// ---------------------------------------------------------------------------------------

/// What has changed once a consumer of the group `id` has ended its subscription to `address`.
///
/// As long as others are left, every address goes where it went, to a group that runs as it
/// ran and counts one consumer less. With the last consumer the group is shut down, and the
/// entry that leads to it is taken out, and no other.
pub open spec fn consumer_ended(
    before: RegistryView,
    after: RegistryView,
    address: Seq<u8>,
    id: u64,
) -> bool {
    if !before.store.groups.contains_key(id) {
        after == before
    } else if before.store.groups[id].active_consumers > 1 {
        after.routes == before.routes && one_less(before.store, after.store, id)
    } else if before.store.groups[id].active_consumers == 1 {
        let group = before.store.groups[id];
        &&& rest_kept(before.store, after.store, Some(group.slot), Some(id))
        &&& after.store.sender_of(RouteTarget::LoadBalanced(id)) is None
        &&& after.store.groups.contains_key(id)
        &&& after.store.groups[id].active_consumers == 0
        &&& !after.store.groups[id].dispatcher_running
        &&& after.store.groups[id].version != group.version
        &&& if before.routes.entry(address) == Some(RouteTarget::LoadBalanced(id)) {
            only_entry_changed(before.routes, after.routes, address, None)
        } else {
            after.routes == before.routes
        }
    } else {
        after.routes == before.routes && rest_kept(before.store, after.store, None, Some(id))
    }
}

/// What has changed once a subscription has ended.
pub open spec fn subscription_ended(
    handle: SubscriptionHandle,
    before: RegistryView,
    after: RegistryView,
) -> bool {
    match handle.cleanup {
        CleanupStrategy::Exclusive { slot } => subscription_taken(
            before,
            after,
            encode_utf8(handle.address@),
            slot,
        ),
        CleanupStrategy::LoadBalanced { group } => consumer_ended(
            before,
            after,
            encode_utf8(handle.address@),
            group,
        ),
    }
}

proof fn lemma_ended(handle: SubscriptionHandle, before: RegistryView)
    requires
        before.inv(),
    ensures
        subscription_ended(handle, before, handle.ended(before)),
{
    let address = encode_utf8(handle.address@);
    match handle.cleanup {
        CleanupStrategy::Exclusive { slot } => {
            lemma_unregistered(before, address, slot);
        },
        CleanupStrategy::LoadBalanced { group } => {
            let left = RegistryView { store: before.store.consumer_left(group), ..before };
            assert(left.inv());
            lemma_group_unbound(left, address, group);
        },
    }
}

/// Ending a subscription takes this one subscription and leaves all others. A dispatcher is to
/// be stopped exactly if it ran and the last consumer of its group has left.
pub proof fn law_closing_a_subscription(
    before: LocalRegistry,
    after: LocalRegistry,
    handle: SubscriptionHandle,
    r: bool,
)
    requires
        before@.inv(),
        exists|m: &mut LocalRegistry|
            *m == before && *final(m) == after && #[trigger] call_ensures(
                SubscriptionHandle::close,
                (handle, m),
                r,
            ),
    ensures
        subscription_ended(handle, before@, after@),
        r <==> {
            &&& handle.cleanup matches CleanupStrategy::LoadBalanced { group: id }
            &&& before@.store.groups.contains_key(id)
            &&& before@.store.groups[id].active_consumers == 1
            &&& before@.store.groups[id].dispatcher_running
        },
{
    lemma_ended(handle, before@);
}

/// Closing a client ends the subscription to its own address.
pub proof fn law_closing_a_client(before: LocalRegistry, after: LocalRegistry, client: BrokerClient)
    requires
        before@.inv(),
        exists|m: &mut LocalRegistry|
            *m == before && *final(m) == after && #[trigger] call_ensures(
                BrokerClient::close,
                (client, m),
                (),
            ),
    ensures
        subscription_ended(client.reply_handle, before@, after@),
{
    lemma_ended(client.reply_handle, before@);
}

// ---------------------------------------------------------------------------------------
// Subscribing
// ---------------------------------------------------------------------------------------

/// Whether `after` has one new exclusive subscription to `address`, under a number that was
/// not used before, and `subscriber` reads the channel to it, which holds `capacity` messages.
pub open spec fn exclusively_subscribed(
    before: RegistryView,
    after: RegistryView,
    address: Seq<u8>,
    capacity: usize,
    slot: u64,
    subscriber: Subscriber,
) -> bool {
    &&& !before.store.slots.contains_key(slot)
    &&& only_entry_changed(before.routes, after.routes, address, Some(RouteTarget::Single(slot)))
    &&& others_kept(before.store, after.store, Some(slot), None)
    &&& after.store.sender_of(RouteTarget::Single(slot)) matches Some(channel)
    &&& channel.limit() == capacity
    &&& subscriber.mode == SubscriberMode::Push(channel.receiver())
}

/// Whether `after` has a new group for `address`, under a number that was not used before, in
/// which `subscription` is the only consumer: its dispatcher reads the messages that go to
/// the group, and the requests of the consumer.
pub open spec fn group_made(
    before: RegistryView,
    after: RegistryView,
    address: Seq<u8>,
    capacity: usize,
    id: u64,
    subscription: Subscription,
) -> bool {
    let target = RouteTarget::LoadBalanced(id);
    let group = after.store.groups[id];
    &&& !before.store.groups.contains_key(id)
    &&& after.store.groups.contains_key(id)
    &&& !before.store.slots.contains_key(group.slot)
    &&& only_entry_changed(before.routes, after.routes, address, Some(target))
    &&& others_kept(before.store, after.store, Some(group.slot), Some(id))
    &&& group.active_consumers == 1
    &&& group.dispatcher_running
    &&& after.store.sender_of(target) matches Some(channel)
    &&& channel.limit() == capacity
    &&& subscription.dispatcher matches Some(dispatcher)
    &&& dispatcher.messages == channel.receiver()
    &&& dispatcher.slot == group.slot
    &&& encode_utf8(dispatcher.address@) == address
    &&& subscription.subscriber.mode matches SubscriberMode::Pull(requests)
    &&& requests == group.req_tx
    &&& requests.limit() == 1000
    &&& dispatcher.requests == requests.receiver()
}

/// Whether `after` has one more consumer in the group `id`, and `subscription` asks for its
/// messages where the others do. All addresses go where they went.
pub open spec fn group_joined(
    before: RegistryView,
    after: RegistryView,
    id: u64,
    subscription: Subscription,
) -> bool {
    &&& before.store.groups.contains_key(id)
    &&& after.routes == before.routes
    &&& rest_kept(before.store, after.store, None, Some(id))
    &&& after.store.groups.contains_key(id)
    &&& before.store.groups[id].active_consumers < usize::MAX
        ==> after.store.groups[id].active_consumers == before.store.groups[id].active_consumers + 1
    &&& after.store.groups[id].slot == before.store.groups[id].slot
    &&& after.store.groups[id].version == before.store.groups[id].version
    &&& after.store.groups[id].dispatcher_running == before.store.groups[id].dispatcher_running
    &&& after.store.groups[id].req_tx == before.store.groups[id].req_tx
    &&& subscription.subscriber.mode == SubscriberMode::Pull(before.store.groups[id].req_tx)
    &&& subscription.dispatcher is None
}

/// Whether an address can be registered.
pub open spec fn free(registry: RegistryView, address: Seq<u8>) -> bool {
    registrable(address) && !taken(registry, address)
}

proof fn lemma_bound(before: RegistryView, address: Seq<u8>, target: RouteTarget)
    requires
        before.routes.entry(address) is None,
    ensures
        only_entry_changed(
            before.routes,
            before.routes.bind(address, target),
            address,
            Some(target),
        ),
{
    assert forall|x: Seq<u8>| #[trigger] before.routes.bind(address, target).entry(x) == (if x
        == address {
        Some(target)
    } else {
        before.routes.entry(x)
    }) by {
        lemma_bind_entry(before.routes, address, target, x);
    }
}

/// An exclusive subscription succeeds exactly if the address is free, and then is the one new
/// entry. A load-balanced one joins the group of exactly this address if there is one, makes a
/// new one if the address is free, and is refused otherwise. What the subscriber reads is what
/// is sent to the address; its handle ends this subscription. Nothing changes if it is refused.
pub proof fn law_subscribing(
    before: LocalRegistry,
    after: LocalRegistry,
    client: &BrokerClient,
    address: String,
    config: SubscriberConfig,
    r: Result<Subscription, RegistryError>,
)
    requires
        before@.inv(),
        before@.store.next_id < u64::MAX - 1,
        exists|m: &mut LocalRegistry|
            *m == before && *final(m) == after && #[trigger] call_ensures(
                BrokerClient::subscribe,
                (client, m, address, config),
                r,
            ),
    ensures
        after@.inv(),
        r is Err ==> after@ == before@,
        r matches Ok(subscription) ==> {
            &&& subscription.subscriber.address@ == address@
            &&& subscription.handle.address@ == address@
        },
        match config.routing_policy {
            RoutingPolicy::Exclusive => match r {
                Ok(subscription) => {
                    &&& free(before@, encode_utf8(address@))
                    &&& subscription.dispatcher is None
                    &&& subscription.handle.cleanup matches CleanupStrategy::Exclusive { slot }
                    &&& exclusively_subscribed(
                        before@,
                        after@,
                        encode_utf8(address@),
                        config.channel_capacity,
                        slot,
                        subscription.subscriber,
                    )
                },
                Err(e) => !free(before@, encode_utf8(address@)) && refused_for(
                    before@,
                    address@,
                    e,
                ),
            },
            RoutingPolicy::LoadBalanced => match r {
                Ok(subscription) => {
                    &&& subscription.handle.cleanup matches CleanupStrategy::LoadBalanced {
                        group: id,
                    }
                    &&& if before@.routes.entry(encode_utf8(address@)) is Some {
                        &&& before@.routes.entry(encode_utf8(address@)) == Some(
                            RouteTarget::LoadBalanced(id),
                        )
                        &&& group_joined(before@, after@, id, subscription)
                    } else {
                        &&& free(before@, encode_utf8(address@))
                        &&& group_made(
                            before@,
                            after@,
                            encode_utf8(address@),
                            config.channel_capacity,
                            id,
                            subscription,
                        )
                    }
                },
                Err(e) => {
                    &&& !free(before@, encode_utf8(address@))
                    &&& if registrable(encode_utf8(address@)) && before@.routes.entry(
                        encode_utf8(address@),
                    ) is Some {
                        &&& e matches RegistryError::PolicyMismatch(text) && text@ == address@
                        &&& !(before@.routes.entry(encode_utf8(address@)) matches Some(
                            RouteTarget::LoadBalanced(id),
                        ) && before@.store.groups.contains_key(id))
                    } else {
                        refused_for(before@, address@, e)
                    }
                },
            },
        },
{
    let bytes = encode_utf8(address@);
    lemma_verdict(before@, address@);
    if before@.routes.entry(bytes) is None {
        lemma_bound(before@, bytes, RouteTarget::Single(before@.store.next_id));
        lemma_bound(
            before@,
            bytes,
            RouteTarget::LoadBalanced((before@.store.next_id + 1) as u64),
        );
    }
}

/// A client is made exactly if its address is free, and then its address is the one new entry:
/// replies that are sent to it come in at the subscriber that is returned. No request waits.
pub proof fn law_making_a_client(
    before: Broker,
    after: Broker,
    config: ClientConfig,
    address: String,
    r: Result<(BrokerClient, Subscriber), BrokerError>,
)
    requires
        before.registry@.inv(),
        before.registry@.store.next_id < u64::MAX,
        exists|m: &mut Broker|
            *m == before && *final(m) == after && #[trigger] call_ensures(
                Broker::client,
                (m, config, address),
                r,
            ),
    ensures
        after.registry@.inv(),
        after.config == before.config,
        match r {
            Ok((client, replies)) => {
                &&& free(before.registry@, encode_utf8(address@))
                &&& client.client_address@ == address@
                &&& client.reply_handle.address@ == address@
                &&& client.reply_handle.cleanup matches CleanupStrategy::Exclusive { slot }
                &&& exclusively_subscribed(
                    before.registry@,
                    after.registry@,
                    encode_utf8(address@),
                    config.reply_channel_capacity,
                    slot,
                    replies,
                )
                &&& forall|id: Seq<u8>| !(#[trigger] client.reply_dispatcher.awaits(id))
            },
            Err(e) => {
                &&& !free(before.registry@, encode_utf8(address@))
                &&& after.registry@ == before.registry@
                &&& e matches BrokerError::Registry(cause) && refused_for(
                    before.registry@,
                    address@,
                    cause,
                )
            },
        },
{
    let bytes = encode_utf8(address@);
    lemma_verdict(before.registry@, address@);
    if before.registry@.routes.entry(bytes) is None {
        lemma_bound(
            before.registry@,
            bytes,
            RouteTarget::Single(before.registry@.store.next_id),
        );
    }
}

// ---------------------------------------------------------------------------------------
// Receiving
// ---------------------------------------------------------------------------------------

/// A subscriber with a channel of its own hands out what the channel gave, whatever that is:
/// a message as it came, or that there is none. It asks the channel once. A consumer of a group
/// has no message at hand, and asks nobody.
pub proof fn law_receiving(
    before: Subscriber,
    after: Subscriber,
    r: Result<Message, TryRecvError>,
)
    requires
        exists|m: &mut Subscriber|
            *m == before && *final(m) == after && #[trigger] call_ensures(
                Subscriber::try_recv,
                (m,),
                r,
            ),
    ensures
        after.address == before.address,
        match before.mode {
            SubscriberMode::Push(channel) => exists|rx: &mut MessageReceiver|
                *rx == channel && after.mode == SubscriberMode::Push(*final(rx))
                    && #[trigger] call_ensures(MessageReceiver::try_recv, (rx,), r),
            SubscriberMode::Pull(_) => {
                &&& r == Err::<Message, TryRecvError>(TryRecvError::Empty)
                &&& after.mode == before.mode
            },
        },
{
}

// ---------------------------------------------------------------------------------------
// Requests and replies
// ---------------------------------------------------------------------------------------

/// Whether the same requests wait before and after, each in its place, but for this one.
pub open spec fn other_waiters_kept(
    before: ReplyDispatcher,
    after: ReplyDispatcher,
    message_id: Seq<u8>,
) -> bool {
    forall|id: Seq<u8>|
        #![trigger after.awaits(id)]
        #![trigger before.awaits(id)]
        id.len() == MESSAGE_ID_LEN && id != message_id ==> {
            &&& after.awaits(id) == before.awaits(id)
            &&& before.awaits(id) ==> after.waiter(id) == before.waiter(id)
        }
}

proof fn lemma_other_waiters(
    before: ReplyDispatcher,
    after: ReplyDispatcher,
    message_id: Seq<u8>,
)
    requires
        message_id.len() == MESSAGE_ID_LEN,
        forall|key: u128|
            #![trigger after.waiters@.contains_key(key)]
            #![trigger before.waiters@.contains_key(key)]
            key != waiter_key(message_id) ==> {
                &&& after.waiters@.contains_key(key) == before.waiters@.contains_key(key)
                &&& before.waiters@.contains_key(key) ==> after.waiters@[key]
                    == before.waiters@[key]
            },
    ensures
        other_waiters_kept(before, after, message_id),
{
    assert forall|id: Seq<u8>|
        #![trigger after.awaits(id)]
        #![trigger before.awaits(id)]
        id.len() == MESSAGE_ID_LEN && id != message_id implies {
        &&& after.awaits(id) == before.awaits(id)
        &&& before.awaits(id) ==> after.waiter(id) == before.waiter(id)
    } by {
        let key = waiter_key(id);
        if key == waiter_key(message_id) {
            lemma_waiter_key(id, message_id);
        }
        assert(after.waiters@.contains_key(key) == before.waiters@.contains_key(key));
    }
}

/// A request begins to wait unless one with its identifier waits already, and the reply will
/// come where it waits. No other request is touched.
pub proof fn law_beginning_to_wait(
    before: ReplyDispatcher,
    after: ReplyDispatcher,
    message_id: [u8; MESSAGE_ID_LEN],
    r: Result<(WaiterGuard, oneshot::Receiver<Message>), RegistryError>,
)
    requires
        exists|m: &mut ReplyDispatcher|
            *m == before && *final(m) == after && #[trigger] call_ensures(
                ReplyDispatcher::register_waiter,
                (m, message_id),
                r,
            ),
    ensures
        other_waiters_kept(before, after, message_id@),
        after.awaits(message_id@),
        match r {
            Ok((guard, receiver)) => {
                &&& !before.awaits(message_id@)
                &&& guard.message_id == message_id
                &&& receiver == reply_receiver(after.waiter(message_id@))
            },
            Err(e) => {
                &&& before.awaits(message_id@)
                &&& after.waiter(message_id@) == before.waiter(message_id@)
                &&& e == RegistryError::WaiterAlreadyExists
            },
        },
{
    lemma_other_waiters(before, after, message_id@);
}

/// A response goes, as it came, to where the request with its identifier waits, and that
/// request waits no more. A response that nobody waits for goes nowhere. No other request is
/// touched.
pub proof fn law_dispatching(
    before: ReplyDispatcher,
    after: ReplyDispatcher,
    response: Message,
    r: Option<(oneshot::Sender<Message>, Message)>,
)
    requires
        exists|m: &mut ReplyDispatcher|
            *m == before && *final(m) == after && #[trigger] call_ensures(
                ReplyDispatcher::dispatch,
                (m, response),
                r,
            ),
    ensures
        other_waiters_kept(before, after, response.header.message_id@),
        !after.awaits(response.header.message_id@),
        match r {
            Some((waiter, message)) => {
                &&& before.awaits(response.header.message_id@)
                &&& waiter == before.waiter(response.header.message_id@)
                &&& message == response
            },
            None => !before.awaits(response.header.message_id@),
        },
{
    lemma_other_waiters(before, after, response.header.message_id@);
}

/// Giving up ends the wait of this one request.
pub proof fn law_giving_up(before: ReplyDispatcher, after: ReplyDispatcher, guard: WaiterGuard)
    requires
        exists|m: &mut ReplyDispatcher|
            *m == before && *final(m) == after && #[trigger] call_ensures(
                WaiterGuard::release,
                (guard, m),
                (),
            ),
    ensures
        other_waiters_kept(before, after, guard.message_id@),
        !after.awaits(guard.message_id@),
{
    lemma_other_waiters(before, after, guard.message_id@);
}

/// A request is sent as it was given, but that its reply goes to the client, and it waits for
/// the reply under its own identifier. A second one with the same identifier is refused. The
/// client is otherwise unchanged.
pub proof fn law_beginning_a_request(
    before: BrokerClient,
    after: BrokerClient,
    message: Message,
    r: TransportResult<(Message, WaiterGuard, oneshot::Receiver<Message>)>,
)
    requires
        exists|m: &mut BrokerClient|
            *m == before && *final(m) == after && #[trigger] call_ensures(
                BrokerClient::begin_request,
                (m, message),
                r,
            ),
    ensures
        after.client_address == before.client_address,
        after.reply_handle == before.reply_handle,
        other_waiters_kept(
            before.reply_dispatcher,
            after.reply_dispatcher,
            message.header.message_id@,
        ),
        after.reply_dispatcher.awaits(message.header.message_id@),
        match r {
            Ok((request, guard, receiver)) => {
                &&& !before.reply_dispatcher.awaits(message.header.message_id@)
                &&& request@.reply_to == before.client_address@
                &&& request@.header == message@.header
                &&& request@.msg_type == message@.msg_type
                &&& request@.address == message@.address
                &&& request@.payload == message@.payload
                &&& guard.message_id@ == message.header.message_id@
                &&& receiver == reply_receiver(
                    after.reply_dispatcher.waiter(message.header.message_id@),
                )
            },
            Err(e) => {
                &&& before.reply_dispatcher.awaits(message.header.message_id@)
                &&& e == TransportError::Registry(RegistryError::WaiterAlreadyExists)
            },
        },
{
    lemma_other_waiters(
        before.reply_dispatcher,
        after.reply_dispatcher,
        message.header.message_id@,
    );
}

/// Ending all waits leaves nobody waiting, and in a new dispatcher nobody waits.
pub proof fn law_ending_all_waits(
    before: ReplyDispatcher,
    after: ReplyDispatcher,
    new: ReplyDispatcher,
)
    requires
        exists|m: &mut ReplyDispatcher|
            *m == before && *final(m) == after && #[trigger] call_ensures(
                ReplyDispatcher::clear,
                (m,),
                (),
            ),
        call_ensures(ReplyDispatcher::new, (), new),
    ensures
        forall|id: Seq<u8>| !(#[trigger] after.awaits(id)),
        forall|id: Seq<u8>| !(#[trigger] new.awaits(id)),
{
}

// ---------------------------------------------------------------------------------------
// The plain table
// ---------------------------------------------------------------------------------------

/// In the plain table an address leads to whom it was last registered for, until it is taken
/// out; other addresses are not touched.
pub proof fn law_plain_table(
    before: PlainTable,
    registered: PlainTable,
    after: PlainTable,
    address: String,
    channel: u64,
    taken: &str,
    asked: &str,
    at_first: Option<u64>,
    meanwhile: Option<u64>,
    at_last: Option<u64>,
)
    requires
        exists|m: &mut PlainTable|
            *m == before && *final(m) == registered && #[trigger] call_ensures(
                PlainTable::register,
                (m, address, channel),
                (),
            ),
        exists|m: &mut PlainTable|
            *m == registered && *final(m) == after && #[trigger] call_ensures(
                PlainTable::unregister,
                (m, taken),
                (),
            ),
        call_ensures(PlainTable::lookup, (&before, asked), at_first),
        call_ensures(PlainTable::lookup, (&registered, asked), meanwhile),
        call_ensures(PlainTable::lookup, (&after, asked), at_last),
    ensures
        meanwhile == (if asked@ == address@ {
            Some(channel)
        } else {
            at_first
        }),
        at_last == (if asked@ == taken@ {
            None
        } else {
            meanwhile
        }),
{
}

/// Delivery through the plain table finds whom looking the address up finds.
pub proof fn law_plain_delivery(
    transport: &PlainTransport,
    address: &str,
    found: Option<u64>,
    r: TransportResult<u64>,
)
    requires
        call_ensures(PlainTable::lookup, (&transport.registry, address), found),
        call_ensures(PlainTransport::recipient, (transport, address), r),
    ensures
        match r {
            Ok(channel) => found == Some(channel),
            Err(e) => found is None && (e matches TransportError::RecipientNotFound(text) && text@
                == address@),
        },
{
}

/// A message becomes a request by its flag alone.
pub proof fn law_request_of_a_message(message: Message, r: Message)
    requires
        call_ensures(PlainTransport::as_request, (message,), r),
    ensures
        r@.header.flags == 1,
        r@.header.version == message@.header.version,
        r@.header.session_token == message@.header.session_token,
        r@.header.message_id == message@.header.message_id,
        r@.header.sub_message_id == message@.header.sub_message_id,
        r@.header.ttl == message@.header.ttl,
        r@.header.msg_type_len == message@.header.msg_type_len,
        r@.header.address_len == message@.header.address_len,
        r@.header.payload_len == message@.header.payload_len,
        r@.msg_type == message@.msg_type,
        r@.address == message@.address,
        r@.payload == message@.payload,
        r@.reply_to == message@.reply_to,
{
}

} // verus!
