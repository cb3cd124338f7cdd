//! What holds of subscriptions and replies as a whole.

use tokio::sync::oneshot;
use vstd::prelude::*;
use vstd::utf8::{encode_utf8, encode_utf8_valid_utf8};

use super::reply_dispatcher::{lemma_waiter_key, waiter_key};
use super::subscriber::{CleanupStrategy, SubscriberMode, SubscriptionHandle};
use super::{group_subscription, joined_subscription, Subscription};
use crate::broker_core::registry::laws::{
    law_registered_address_is_occupied, law_registered_is_looked_up, law_unregister_undoes_register,
    law_unregistered_is_gone, lemma_bind_entry, lemma_free_exact, lemma_free_wildcard, reaches,
};
use crate::broker_core::registry::load_balanced_group::LoadBalancedGroup;
use crate::broker_core::registry::pattern::{has_star, lemma_pattern_fault};
use crate::broker_core::registry::routing::RouteTarget;
use crate::broker_core::registry::slot::next_version;
use crate::broker_core::registry::store::Store;
use crate::broker_core::registry::{RegistryView, Verdict};
use crate::broker_core::transport::channel::MessageSender;
use crate::broker_core::transport::in_memory::InMemoryEndpoint;
use crate::protocol::{Message, MESSAGE_ID_LEN};

verus! {

// ---------------------------------------------------------------------------------------
// Subscriptions
// ---------------------------------------------------------------------------------------

/// Once an address is registered, whoever asks for it gets its target: the address is refused
/// to others, and "get the existing target or register a new one" finds the first target.
pub proof fn law_second_registration_finds_the_first(
    before: RegistryView,
    address: Seq<u8>,
    target: RouteTarget,
)
    requires
        before.verdict(address) is Free,
    ensures
        before.bound(address, target).verdict(address) == Verdict::Occupied(target),
{
    law_registered_address_is_occupied(before.routes, address, target);
}

/// Messages to every address that a subscription reaches go to the channel of that
/// subscription, and messages to other addresses go where they went before.
pub proof fn law_subscription_receives(
    before: RegistryView,
    address: Seq<char>,
    channel: MessageSender,
    a: Seq<u8>,
)
    requires
        before.inv(),
        before.verdict(encode_utf8(address)) is Free,
    ensures
        reaches(encode_utf8(address), a) ==> {
            let after = before.subscribed(encode_utf8(address), channel);
            &&& after.routes.route_of(a) == Some(RouteTarget::Single(before.store.next_id))
            &&& after.store.sender_of(RouteTarget::Single(before.store.next_id)) == Some(channel)
        },
        !reaches(encode_utf8(address), a) ==> {
            let after = before.subscribed(encode_utf8(address), channel);
            &&& after.routes.route_of(a) == before.routes.route_of(a)
            &&& match before.routes.route_of(a) {
                Some(target) => before.store.holds(target) ==> after.store.sender_of(target)
                    == before.store.sender_of(target),
                None => true,
            }
        },
{
    let bytes = encode_utf8(address);
    lemma_pattern_fault(bytes);
    encode_utf8_valid_utf8(address);
    law_registered_is_looked_up(
        before.routes,
        bytes,
        RouteTarget::Single(before.store.next_id),
        a,
    );
}

/// Ending an exclusive subscription undoes it: all addresses lead where they led before it,
/// and its own address is free again.
pub proof fn law_ending_undoes_subscribing(
    before: RegistryView,
    address: String,
    channel: MessageSender,
)
    requires
        before.inv(),
        before.verdict(encode_utf8(address@)) is Free,
    ensures
        ({
            let after = before.subscribed(encode_utf8(address@), channel);
            let handle = SubscriptionHandle {
                address,
                cleanup: CleanupStrategy::Exclusive { slot: before.store.next_id },
            };
            &&& handle.ended(after).routes == before.routes
            &&& handle.ended(after).verdict(encode_utf8(address@)) is Free
            &&& handle.ended(after).store.sender_of(
                RouteTarget::Single(before.store.next_id),
            ) is None
            &&& !InMemoryEndpoint::at(
                RouteTarget::Single(before.store.next_id),
                after.store,
            ).fresh(handle.ended(after).store)
        }),
{
    let bytes = encode_utf8(address@);
    let target = RouteTarget::Single(before.store.next_id);
    law_unregister_undoes_register(before.routes, bytes, target);
    lemma_pattern_fault(bytes);
    encode_utf8_valid_utf8(address@);
    if has_star(bytes) {
        lemma_free_wildcard(before.routes, bytes);
    } else {
        lemma_free_exact(before.routes, bytes);
    }
    lemma_bind_entry(before.routes, bytes, target, bytes);
}

/// A consumer that joins a group and leaves it again changes nothing, unless it was the last
/// one.
pub proof fn law_leaving_undoes_joining(group: LoadBalancedGroup)
    ensures
        group.joined().left() == group,
{
}

/// A group with `n` consumers is shut down by the last of `n` that leave, and not before.
pub proof fn law_last_consumer_shuts_down(store: Store, id: u64)
    requires
        store.groups.contains_key(id),
    ensures
        store.groups[id].active_consumers == 1 ==> store.consumer_left(id).groups[id].version
            == next_version(store.groups[id].version) && !store.consumer_left(id).dispatcher_runs(
            id,
        ) && store.consumer_left(id).sender_of(RouteTarget::LoadBalanced(id)) is None,
        store.groups[id].active_consumers > 1 ==> {
            &&& store.consumer_left(id).groups[id].active_consumers
                == store.groups[id].active_consumers - 1
            &&& store.consumer_left(id).groups[id].version == store.groups[id].version
            &&& store.consumer_left(id).dispatcher_runs(id) == store.dispatcher_runs(id)
            &&& store.consumer_left(id).sender_of(RouteTarget::LoadBalanced(id))
                == store.sender_of(RouteTarget::LoadBalanced(id))
        },
{
}

/// When the last consumer of a group ends its subscription, the address of the group is free
/// again: no address leads to the group any more.
pub proof fn law_last_consumer_frees_address(
    before: RegistryView,
    address: String,
    id: u64,
    a: Seq<u8>,
)
    requires
        before.inv(),
        before.routes.entry(encode_utf8(address@)) == Some(RouteTarget::LoadBalanced(id)),
        before.store.last_consumer(id),
    ensures
        ({
            let handle = SubscriptionHandle {
                address,
                cleanup: CleanupStrategy::LoadBalanced { group: id },
            };
            let after = handle.ended(before);
            &&& after.routes == before.routes.unbind(encode_utf8(address@))
            &&& after.store.sender_of(RouteTarget::LoadBalanced(id)) is None
            &&& !after.store.dispatcher_runs(id)
            &&& after.store.version_of(RouteTarget::LoadBalanced(id)) == next_version(
                before.store.version_of(RouteTarget::LoadBalanced(id)),
            )
            &&& reaches(encode_utf8(address@), a) ==> after.routes.route_of(a) is None
            &&& !reaches(encode_utf8(address@), a) ==> after.routes.route_of(a)
                == before.routes.route_of(a)
        }),
{
    law_unregistered_is_gone(before.routes, encode_utf8(address@), a);
}

/// A group that one subscription has made gets the messages to every address that the
/// subscription reaches: they go into the queue that its dispatcher reads, and the dispatcher
/// reads the requests of the consumer.
pub proof fn law_group_receives(
    before: RegistryView,
    after: RegistryView,
    address: Seq<char>,
    capacity: usize,
    subscription: Subscription,
    a: Seq<u8>,
)
    requires
        before.inv(),
        before.verdict(encode_utf8(address)) is Free,
        before.store.next_id < u64::MAX - 1,
        group_subscription(before, after, address, capacity, subscription),
        reaches(encode_utf8(address), a),
    ensures
        ({
            let id = (before.store.next_id + 1) as u64;
            let dispatcher = subscription.dispatcher->0;
            &&& after.routes.route_of(a) == Some(RouteTarget::LoadBalanced(id))
            &&& after.store.sender_of(RouteTarget::LoadBalanced(id)) matches Some(channel)
            &&& dispatcher.messages == channel.receiver()
            &&& subscription.subscriber.mode matches SubscriberMode::Pull(requests)
            &&& dispatcher.requests == requests.receiver()
        }),
{
    let bytes = encode_utf8(address);
    lemma_pattern_fault(bytes);
    encode_utf8_valid_utf8(address);
    law_registered_is_looked_up(
        before.routes,
        bytes,
        RouteTarget::LoadBalanced((before.store.next_id + 1) as u64),
        a,
    );
}

/// A consumer that joins a group asks for its messages where the other consumers do, and the
/// messages to the group go where they went before.
pub proof fn law_consumers_share_the_queue(
    before: RegistryView,
    after: RegistryView,
    address: Seq<char>,
    id: u64,
    subscription: Subscription,
)
    requires
        before.store.groups.contains_key(id),
        joined_subscription(before, after, address, id, subscription),
    ensures
        subscription.subscriber.mode == SubscriberMode::Pull(after.store.groups[id].req_tx),
        after.store.groups[id].req_tx == before.store.groups[id].req_tx,
        after.store.sender_of(RouteTarget::LoadBalanced(id)) == before.store.sender_of(
            RouteTarget::LoadBalanced(id),
        ),
        after.routes == before.routes,
{
}

/// A group whose dispatcher has stopped is gone: no address leads to it any more.
pub proof fn law_stopped_group_frees_address(
    before: RegistryView,
    address: Seq<u8>,
    id: u64,
    a: Seq<u8>,
)
    requires
        before.inv(),
        before.routes.entry(address) == Some(RouteTarget::LoadBalanced(id)),
        before.store.groups.contains_key(id),
        reaches(address, a),
    ensures
        ({
            let after = before.dispatcher_ended(address, before.store.groups[id].slot);
            &&& after.routes.route_of(a) is None
            &&& after.store.sender_of(RouteTarget::LoadBalanced(id)) is None
        }),
{
    law_unregistered_is_gone(before.routes, address, a);
}

/// A subscription that is taken from an address which several share leaves alone: the address
/// leads where it led, the messages go where they went, and one consumer less is left.
pub proof fn law_other_consumers_go_on(before: RegistryView, address: Seq<u8>, id: u64)
    requires
        before.routes.entry(address) == Some(RouteTarget::LoadBalanced(id)),
        before.store.groups.contains_key(id),
        before.store.groups[id].active_consumers > 1,
    ensures
        ({
            let target = RouteTarget::LoadBalanced(id);
            let after = before.unregistered(address, before.store.groups[id].slot);
            &&& after.routes == before.routes
            &&& after.store.sender_of(target) == before.store.sender_of(target)
            &&& after.store.dispatcher_runs(id) == before.store.dispatcher_runs(id)
            &&& after.store.groups[id].active_consumers
                == before.store.groups[id].active_consumers - 1
            &&& InMemoryEndpoint::at(target, before.store).fresh(after.store)
        }),
{
}

// ---------------------------------------------------------------------------------------
// Replies
// ---------------------------------------------------------------------------------------

/// Something that happens to the requests that wait.
pub enum WaiterEvent {
    /// A request with this identifier begins to wait.
    Begun(Seq<u8>, oneshot::Sender<Message>),
    /// A response with this identifier comes in.
    Answered(Seq<u8>),
    /// The wait of the request with this identifier is given up.
    Released(Seq<u8>),
}

impl WaiterEvent {
    /// The identifier that the event is about.
    pub open spec fn message_id(self) -> Seq<u8> {
        match self {
            WaiterEvent::Begun(id, _) => id,
            WaiterEvent::Answered(id) => id,
            WaiterEvent::Released(id) => id,
        }
    }
}

/// The requests that wait after these events. A request whose identifier waits already is
/// refused.
pub open spec fn waiters_after(
    waiters: Map<u128, oneshot::Sender<Message>>,
    events: Seq<WaiterEvent>,
) -> Map<u128, oneshot::Sender<Message>>
    decreases events.len(),
{
    if events.len() == 0 {
        waiters
    } else {
        let before = waiters_after(waiters, events.drop_last());
        match events.last() {
            WaiterEvent::Begun(id, waiter) => if before.contains_key(waiter_key(id)) {
                before
            } else {
                before.insert(waiter_key(id), waiter)
            },
            WaiterEvent::Answered(id) => before.remove(waiter_key(id)),
            WaiterEvent::Released(id) => before.remove(waiter_key(id)),
        }
    }
}

/// What was handed over in the course of these events: for each response that a request
/// waited for, where it went and its identifier.
pub open spec fn handed_over(
    waiters: Map<u128, oneshot::Sender<Message>>,
    events: Seq<WaiterEvent>,
) -> Seq<(oneshot::Sender<Message>, Seq<u8>)>
    decreases events.len(),
{
    if events.len() == 0 {
        Seq::empty()
    } else {
        let before = waiters_after(waiters, events.drop_last());
        let earlier = handed_over(waiters, events.drop_last());
        match events.last() {
            WaiterEvent::Answered(id) => if before.contains_key(waiter_key(id)) {
                earlier.push((before[waiter_key(id)], id))
            } else {
                earlier
            },
            _ => earlier,
        }
    }
}

/// Whether a request with the number `key` began to wait at `waiter`.
pub open spec fn began(
    events: Seq<WaiterEvent>,
    key: u128,
    waiter: oneshot::Sender<Message>,
) -> bool {
    exists|i: int|
        0 <= i < events.len() && #[trigger] events[i] == WaiterEvent::Begun(
            events[i].message_id(),
            waiter,
        ) && waiter_key(events[i].message_id()) == key
}

/// Giving up a wait undoes waiting.
pub proof fn law_releasing_undoes_waiting(
    waiters: Map<u128, oneshot::Sender<Message>>,
    message_id: Seq<u8>,
    waiter: oneshot::Sender<Message>,
)
    requires
        !waiters.contains_key(waiter_key(message_id)),
    ensures
        waiters.insert(waiter_key(message_id), waiter).remove(waiter_key(message_id)) == waiters,
{
    assert(waiters.insert(waiter_key(message_id), waiter).remove(waiter_key(message_id))
        =~= waiters);
}

/// A response goes to the request with its identifier and to no other: if the wait of a
/// request ends because a response came in, the response has the identifier of the request,
/// and every other request waits on, for its own reply.
pub proof fn law_reply_has_the_identifier_of_the_request(
    waiters: Map<u128, oneshot::Sender<Message>>,
    response_id: Seq<u8>,
    request_id: Seq<u8>,
)
    requires
        response_id.len() == MESSAGE_ID_LEN,
        request_id.len() == MESSAGE_ID_LEN,
        waiters.contains_key(waiter_key(request_id)),
    ensures
        ({
            let after = waiters.remove(waiter_key(response_id));
            &&& after.contains_key(waiter_key(request_id)) <==> response_id != request_id
            &&& response_id != request_id ==> after[waiter_key(request_id)]
                == waiters[waiter_key(request_id)]
        }),
{
    if waiter_key(response_id) == waiter_key(request_id) {
        lemma_waiter_key(response_id, request_id);
    }
}

/// A request waits until a response with its identifier comes in or its wait is given up,
/// whatever happens to other requests meanwhile, and the response goes where the request
/// waits for it.
pub proof fn law_request_waits_for_its_reply(
    waiters: Map<u128, oneshot::Sender<Message>>,
    events: Seq<WaiterEvent>,
    request_id: Seq<u8>,
)
    requires
        request_id.len() == MESSAGE_ID_LEN,
        waiters.contains_key(waiter_key(request_id)),
        forall|i: int|
            #![trigger events[i]]
            0 <= i < events.len() ==> {
                &&& events[i].message_id().len() == MESSAGE_ID_LEN
                &&& events[i].message_id() == request_id ==> events[i] is Begun
            },
    ensures
        waiters_after(waiters, events).contains_key(waiter_key(request_id)),
        waiters_after(waiters, events)[waiter_key(request_id)] == waiters[waiter_key(request_id)],
    decreases events.len(),
{
    if events.len() > 0 {
        let earlier = events.drop_last();
        assert forall|i: int| #![trigger earlier[i]] 0 <= i < earlier.len() implies {
            &&& earlier[i].message_id().len() == MESSAGE_ID_LEN
            &&& earlier[i].message_id() == request_id ==> earlier[i] is Begun
        } by {
            assert(earlier[i] == events[i]);
        }
        law_request_waits_for_its_reply(waiters, earlier, request_id);
        let last = events[events.len() - 1];
        if waiter_key(last.message_id()) == waiter_key(request_id) {
            lemma_waiter_key(last.message_id(), request_id);
        }
    }
}

proof fn lemma_began_earlier(
    events: Seq<WaiterEvent>,
    key: u128,
    waiter: oneshot::Sender<Message>,
)
    requires
        events.len() > 0,
        began(events.drop_last(), key, waiter),
    ensures
        began(events, key, waiter),
{
    let earlier = events.drop_last();
    let i = choose|i: int|
        0 <= i < earlier.len() && #[trigger] earlier[i] == WaiterEvent::Begun(
            earlier[i].message_id(),
            waiter,
        ) && waiter_key(earlier[i].message_id()) == key;
    assert(events[i] == earlier[i]);
}

/// Who waits has begun to wait, and what was handed over went to somebody who had.
proof fn lemma_began(events: Seq<WaiterEvent>)
    ensures
        forall|key: u128| #[trigger]
            waiters_after(Map::empty(), events).contains_key(key) ==> began(
                events,
                key,
                waiters_after(Map::empty(), events)[key],
            ),
        forall|i: int|
            #![trigger handed_over(Map::empty(), events)[i]]
            0 <= i < handed_over(Map::empty(), events).len() ==> began(
                events,
                waiter_key(handed_over(Map::empty(), events)[i].1),
                handed_over(Map::empty(), events)[i].0,
            ),
    decreases events.len(),
{
    if events.len() > 0 {
        let earlier = events.drop_last();
        let last = events[events.len() - 1];
        lemma_began(earlier);
        let before = waiters_after(Map::empty(), earlier);
        let after = waiters_after(Map::empty(), events);
        assert forall|key: u128| #[trigger] after.contains_key(key) implies began(
            events,
            key,
            after[key],
        ) by {
            if before.contains_key(key) && after[key] == before[key] {
                lemma_began_earlier(events, key, before[key]);
            } else {
                assert(events[events.len() - 1] == last);
            }
        }
        let handed = handed_over(Map::empty(), events);
        let handed_before = handed_over(Map::empty(), earlier);
        assert forall|i: int| #![trigger handed[i]] 0 <= i < handed.len() implies began(
            events,
            waiter_key(handed[i].1),
            handed[i].0,
        ) by {
            if i < handed_before.len() {
                assert(handed[i] == handed_before[i]);
                lemma_began_earlier(events, waiter_key(handed[i].1), handed[i].0);
            } else {
                assert(before.contains_key(waiter_key(handed[i].1)));
                lemma_began_earlier(events, waiter_key(handed[i].1), handed[i].0);
            }
        }
    }
}

proof fn lemma_handed_over_length(events: Seq<WaiterEvent>)
    requires
        forall|n: int|
            #![trigger events[n]]
            0 <= n < events.len() ==> events[n].message_id().len() == MESSAGE_ID_LEN,
    ensures
        forall|i: int|
            #![trigger handed_over(Map::empty(), events)[i]]
            0 <= i < handed_over(Map::empty(), events).len() ==> handed_over(
                Map::empty(),
                events,
            )[i].1.len() == MESSAGE_ID_LEN,
    decreases events.len(),
{
    if events.len() > 0 {
        let earlier = events.drop_last();
        assert(forall|n: int|
            #![trigger earlier[n]]
            0 <= n < earlier.len() ==> earlier[n] == events[n]);
        lemma_handed_over_length(earlier);
        let last = events[events.len() - 1];
        let handed = handed_over(Map::empty(), events);
        let handed_before = handed_over(Map::empty(), earlier);
        assert forall|i: int| #![trigger handed[i]] 0 <= i < handed.len() implies handed[i].1.len()
            == MESSAGE_ID_LEN by {
            if i < handed_before.len() {
                assert(handed[i] == handed_before[i]);
            } else {
                assert(handed[i].1 == last.message_id());
            }
        }
    }
}

/// Whatever comes to a request is a reply to it: in every course of events, what is handed
/// over to where a request waits has the identifier of that request, provided that no two
/// requests wait in the same place.
pub proof fn law_replies_reach_their_requests(events: Seq<WaiterEvent>, i: int, k: int)
    requires
        forall|n: int|
            #![trigger events[n]]
            0 <= n < events.len() ==> events[n].message_id().len() == MESSAGE_ID_LEN,
        forall|m: int, n: int|
            #![trigger events[m], events[n]]
            0 <= m < n < events.len() ==> match (events[m], events[n]) {
                (WaiterEvent::Begun(_, one), WaiterEvent::Begun(_, other)) => one != other,
                _ => true,
            },
        0 <= i < handed_over(Map::empty(), events).len(),
        0 <= k < events.len(),
        events[k] == WaiterEvent::Begun(
            events[k].message_id(),
            handed_over(Map::empty(), events)[i].0,
        ),
    ensures
        handed_over(Map::empty(), events)[i].1 == events[k].message_id(),
{
    let (waiter, response_id) = handed_over(Map::empty(), events)[i];
    lemma_began(events);
    lemma_handed_over_length(events);
    let n = choose|n: int|
        0 <= n < events.len() && #[trigger] events[n] == WaiterEvent::Begun(
            events[n].message_id(),
            waiter,
        ) && waiter_key(events[n].message_id()) == waiter_key(response_id);
    lemma_waiter_key(events[n].message_id(), response_id);
}

} // verus!
