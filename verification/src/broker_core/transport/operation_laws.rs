//! What channels and delivery do, in terms of what is registered and of what channels answer.

use tokio::sync::{mpsc, oneshot};
use vstd::prelude::*;
use vstd::utf8::encode_utf8;

use super::channel::{
    recv_outcome, request_outcome, ChannelLoad, MessageSender, Receiver, RecvTimeoutError,
    RequestSender, RequestToken, Sender, TryRecvError, TryRequestError, TrySendError, Wait,
};
use super::in_memory::{InMemoryEndpoint, InMemoryTransport};
use super::raw::reply_receiver;
use super::{TransportError, TransportResult};
use crate::broker_core::registry::laws::{
    law_lookup_finds_the_recipient, lemma_leads_by_entry, reaches,
};
use crate::broker_core::registry::load_balanced_group::LoadBalancedGroup;
use crate::broker_core::registry::routing::RouteTarget;
use crate::broker_core::registry::slot::SubscriptionSlot;
use crate::broker_core::registry::store::{RouteStore, Store};
use crate::broker_core::registry::{LocalRegistry, RegistryView};
use crate::client::publisher::Publisher;
use crate::client::BrokerClient;
use crate::protocol::Message;

verus! {

// ---------------------------------------------------------------------------------------
// Requests for messages
// ---------------------------------------------------------------------------------------

/// A request is answered as the request channel answered: the place that is returned belongs
/// to a token that was queued; the channel is full only if it said so of a token, and closed
/// only if it said so.
pub proof fn law_requesting(
    requests: &RequestSender,
    r: Result<oneshot::Receiver<Message>, TryRequestError>,
)
    requires
        call_ensures(RequestSender::try_request, (requests,), r),
    ensures
        match r {
            Ok(reply) => exists|token: RequestToken|
                reply == #[trigger] reply_receiver(token) && requests.answers(token, Ok(())),
            Err(TryRequestError::Full) => exists|token: RequestToken| #[trigger]
                requests.answers(token, Err(TrySendError::Full(token))),
            Err(TryRequestError::Disconnected) => requests.reports(true)
                || exists|token: RequestToken| #[trigger]
                requests.answers(token, Err(TrySendError::Disconnected(token))),
        },
{
}

/// A value that is to be queued is queued or comes back, and which of these is what the
/// channel answered.
pub proof fn law_sending<T>(sender: &Sender<T>, value: T, r: Result<(), TrySendError<T>>)
    requires
        call_ensures(Sender::<T>::try_send, (sender, value), r),
    ensures
        sender.answers(value, r),
        r matches Err(e) ==> match e {
            TrySendError::Full(back) => back == value,
            TrySendError::Disconnected(back) => back == value,
        },
{
}

/// What is received is what the queue gave when it was asked once.
pub proof fn law_receiving_from_a_queue<T>(
    before: Receiver<T>,
    after: Receiver<T>,
    r: Result<T, TryRecvError>,
)
    requires
        exists|m: &mut Receiver<T>|
            *m == before && *final(m) == after && #[trigger] call_ensures(
                Receiver::<T>::try_recv,
                (m,),
                r,
            ),
    ensures
        exists|queue: &mut mpsc::Receiver<T>|
            *queue == before.inner && *final(queue) == after.inner
                && #[trigger] Receiver::gave(queue, r),
{
}

// ---------------------------------------------------------------------------------------
// Targets
// ---------------------------------------------------------------------------------------

/// The slot of a target: an exclusive target is one, and a group has one.
pub open spec fn slot_for(store: Store, target: RouteTarget) -> Option<SubscriptionSlot> {
    match target {
        RouteTarget::Single(id) => if store.slots.contains_key(id) {
            Some(store.slots[id])
        } else {
            None
        },
        RouteTarget::LoadBalanced(id) => if store.groups.contains_key(id)
            && store.slots.contains_key(store.groups[id].slot) {
            Some(store.slots[store.groups[id].slot])
        } else {
            None
        },
    }
}

/// The channel to a target.
pub open spec fn channel_to(store: Store, target: RouteTarget) -> Option<MessageSender> {
    match slot_for(store, target) {
        Some(slot) => slot.sender,
        None => None,
    }
}

/// A message to a target is sent with the channel of its slot; there is none once the
/// subscription is gone.
pub proof fn law_delivery<'a>(
    target: &RouteTarget,
    store: &'a RouteStore,
    r: TransportResult<&'a MessageSender>,
)
    requires
        call_ensures(RouteTarget::delivery, (target, store), r),
    ensures
        match channel_to(store@, *target) {
            Some(channel) => r matches Ok(found) && *found == channel,
            None => r == Err::<&MessageSender, TransportError>(TransportError::ConnectionClosed),
        },
{
}

/// The version of a target is that of its slot, or of its group.
pub proof fn law_version(target: &RouteTarget, store: &RouteStore, r: u64)
    requires
        call_ensures(RouteTarget::version, (target, store), r),
    ensures
        match *target {
            RouteTarget::Single(id) => store@.slots.contains_key(id) ==> r
                == store@.slots[id].version,
            RouteTarget::LoadBalanced(id) => store@.groups.contains_key(id) ==> r
                == store@.groups[id].version,
        },
{
}

/// Nothing can be delivered to a slot exactly if it was removed or its channel says that its
/// receiving side is gone.
pub proof fn law_closed_slot(slot: &SubscriptionSlot, r: bool)
    requires
        call_ensures(SubscriptionSlot::is_closed, (slot,), r),
    ensures
        match slot.sender {
            Some(channel) => channel.reports(r),
            None => r,
        },
{
}

/// A group is empty exactly if the handles on its request channel were counted and its own was
/// the only one.
pub proof fn law_empty_group(group: &LoadBalancedGroup, r: bool)
    requires
        call_ensures(LoadBalancedGroup::is_empty, (group,), r),
    ensures
        exists|handles: usize| #[trigger] group.counted(handles) && (r <==> handles == 1),
{
}

/// Whether this is an answer of what stands behind a target: of the channel of an exclusive
/// one, which is closed if there is none; of the group otherwise, which is if it is gone.
pub open spec fn said_to_be_closed(store: Store, target: RouteTarget, closed: bool) -> bool {
    match target {
        RouteTarget::Single(_) => match channel_to(store, target) {
            Some(channel) => channel.reports(closed),
            None => closed,
        },
        RouteTarget::LoadBalanced(id) => if store.groups.contains_key(id) {
            exists|handles: usize| #[trigger]
                store.groups[id].counted(handles) && (closed <==> handles == 1)
        } else {
            closed
        },
    }
}

/// Whether nothing can be delivered to a target is what stands behind it says.
pub proof fn law_closed_target(target: &RouteTarget, store: &RouteStore, r: bool)
    requires
        call_ensures(RouteTarget::is_closed, (target, store), r),
    ensures
        said_to_be_closed(store@, *target, r),
{
}

/// An endpoint is valid exactly if its target has the version that it had and is not said to
/// be closed.
pub proof fn law_valid_endpoint(
    endpoint: &InMemoryEndpoint,
    store: &RouteStore,
    version: u64,
    r: bool,
)
    requires
        call_ensures(RouteTarget::version, (&endpoint.target, store), version),
        call_ensures(InMemoryEndpoint::is_valid, (endpoint, store), r),
    ensures
        exists|closed: bool| #[trigger]
            said_to_be_closed(store@, endpoint.target, closed) && (r <==> version
                == endpoint.cached_version && !closed),
{
    let closed = choose|closed: bool| #[trigger]
        store@.reports_closed(endpoint.target, closed) && r == (endpoint.fresh(store@) && !closed);
    assert(said_to_be_closed(store@, endpoint.target, closed));
}

// ---------------------------------------------------------------------------------------
// Resolving
// ---------------------------------------------------------------------------------------

/// Whether messages to `address` go to `target`: it is what somebody is registered for under
/// the address, or under a pattern that covers it.
pub open spec fn goes_to(registry: RegistryView, address: Seq<char>, target: RouteTarget) -> bool {
    exists|x: Seq<u8>| #[trigger]
        registry.routes.entry(x) == Some(target) && reaches(x, encode_utf8(address))
}

/// Whether `r` is what an address resolves to, as its channel answered: the endpoint of the
/// target that messages to the address go to, with the version of the target, whenever its
/// channel is there and said to be open; that the connection is closed only if that channel is
/// gone or said to be closed; that there is no recipient only if messages go nowhere.
pub open spec fn resolved(
    registry: RegistryView,
    address: Seq<char>,
    r: TransportResult<InMemoryEndpoint>,
) -> bool {
    match r {
        Ok(endpoint) => {
            &&& goes_to(registry, address, endpoint.target)
            &&& slot_for(registry.store, endpoint.target) is Some
            &&& match endpoint.target {
                RouteTarget::Single(id) => endpoint.cached_version
                    == registry.store.slots[id].version,
                RouteTarget::LoadBalanced(id) => endpoint.cached_version
                    == registry.store.groups[id].version,
            }
            &&& channel_to(registry.store, endpoint.target) matches Some(channel)
            &&& channel.reports(false)
        },
        Err(TransportError::ConnectionClosed) => exists|target: RouteTarget| #[trigger]
            goes_to(registry, address, target) && match channel_to(registry.store, target) {
                Some(channel) => channel.reports(true),
                None => true,
            },
        Err(TransportError::RecipientNotFound(text)) => {
            &&& text@ == address
            &&& forall|target: RouteTarget| !#[trigger] goes_to(registry, address, target)
        },
        Err(_) => false,
    }
}

proof fn lemma_goes_to(registry: RegistryView, address: Seq<char>)
    requires
        registry.inv(),
    ensures
        forall|target: RouteTarget| #[trigger]
            goes_to(registry, address, target) <==> registry.routes.route_of(encode_utf8(address))
                == Some(target),
{
    let a = encode_utf8(address);
    law_lookup_finds_the_recipient(registry.routes, a);
    assert forall|target: RouteTarget| #[trigger]
        goes_to(registry, address, target) <==> registry.routes.route_of(a) == Some(target) by {
        lemma_leads_by_entry(registry.routes, a, target);
    }
}

proof fn lemma_resolved(
    registry: RegistryView,
    address: Seq<char>,
    closed: bool,
    r: TransportResult<InMemoryEndpoint>,
)
    requires
        registry.inv(),
        InMemoryTransport::channel_reports(registry, address, closed),
        InMemoryTransport::resolves(registry, address, closed, r),
    ensures
        resolved(registry, address, r),
{
    lemma_goes_to(registry, address);
    match InMemoryTransport::found(registry, address) {
        Some(endpoint) => {
            assert(goes_to(registry, address, endpoint.target));
        },
        None => {},
    }
}

/// Resolving an address gives the endpoint to which it leads, exact or by a pattern.
pub proof fn law_resolving(
    transport: &InMemoryTransport,
    registry: &LocalRegistry,
    address: &str,
    r: TransportResult<InMemoryEndpoint>,
)
    requires
        registry@.inv(),
        call_ensures(InMemoryTransport::resolve, (transport, registry, address), r),
    ensures
        resolved(registry@, address@, r),
{
    let closed = choose|closed: bool| #[trigger]
        InMemoryTransport::channel_reports(registry@, address@, closed)
            && InMemoryTransport::resolves(registry@, address@, closed, r);
    lemma_resolved(registry@, address@, closed, r);
}

/// Resolving an address, given whether its channel is closed, and getting the endpoint for the
/// next message, given whether the kept one is valid too: the kept one if it is, and otherwise
/// the endpoint of the target that messages to the address go to if its channel is there and
/// not closed. What is resolved is kept.
pub proof fn law_resolving_when(
    transport: &InMemoryTransport,
    before: Publisher,
    after: Publisher,
    registry: &LocalRegistry,
    address: &str,
    valid: bool,
    closed: bool,
    resolved: TransportResult<InMemoryEndpoint>,
    r: TransportResult<InMemoryEndpoint>,
)
    requires
        registry@.inv(),
        before.address@ == address@,
        call_ensures(
            InMemoryTransport::resolve_when,
            (transport, registry, address, closed),
            resolved,
        ),
        exists|m: &mut Publisher|
            *m == before && *final(m) == after && #[trigger] call_ensures(
                Publisher::endpoint_when,
                (m, registry, valid, closed),
                r,
            ),
    ensures
        match resolved {
            Ok(endpoint) => {
                &&& !closed
                &&& goes_to(registry@, address@, endpoint.target)
                &&& channel_to(registry@.store, endpoint.target) is Some
                &&& endpoint.cached_version == registry@.store.version_of(endpoint.target)
            },
            Err(TransportError::ConnectionClosed) => exists|target: RouteTarget| #[trigger]
                goes_to(registry@, address@, target) && (closed || channel_to(
                    registry@.store,
                    target,
                ) is None),
            Err(TransportError::RecipientNotFound(text)) => {
                &&& text@ == address@
                &&& forall|target: RouteTarget| !#[trigger] goes_to(registry@, address@, target)
            },
            Err(_) => false,
        },
        after.address == before.address,
        match before.cached_endpoint {
            Some(kept) if valid => r == Ok::<InMemoryEndpoint, TransportError>(kept)
                && after.cached_endpoint == Some(kept),
            _ => match resolved {
                Ok(endpoint) => r == Ok::<InMemoryEndpoint, TransportError>(endpoint)
                    && after.cached_endpoint == Some(endpoint),
                Err(_) => r is Err && after.cached_endpoint == before.cached_endpoint,
            },
        },
{
    lemma_goes_to(registry@, address@);
    if let Some(endpoint) = InMemoryTransport::found(registry@, address@) {
        assert(goes_to(registry@, address@, endpoint.target));
    }
}

/// The channel for a message to an address is that of the target that messages to the address
/// go to.
pub proof fn law_channel_for_an_address<'a>(
    transport: &InMemoryTransport,
    registry: &'a LocalRegistry,
    address: &str,
    r: TransportResult<&'a MessageSender>,
)
    requires
        registry@.inv(),
        call_ensures(InMemoryTransport::channel_for, (transport, registry, address), r),
    ensures
        match r {
            Ok(channel) => exists|target: RouteTarget| #[trigger]
                goes_to(registry@, address@, target) && channel_to(registry@.store, target)
                    == Some(*channel),
            Err(TransportError::ConnectionClosed) => exists|target: RouteTarget| #[trigger]
                goes_to(registry@, address@, target) && channel_to(registry@.store, target) is None,
            Err(TransportError::RecipientNotFound(text)) => {
                &&& text@ == address@
                &&& forall|target: RouteTarget| !#[trigger] goes_to(registry@, address@, target)
            },
            Err(_) => false,
        },
{
    lemma_goes_to(registry@, address@);
    if let Some(target) = registry@.routes.route_of(encode_utf8(address@)) {
        assert(goes_to(registry@, address@, target));
    }
}

/// A publisher uses the endpoint that it keeps as long as the version of its target is the same
/// and the target is not said to be closed, and otherwise what its address resolves to now. It
/// keeps what it uses, and what it kept if there is nothing to use.
pub proof fn law_publishing(
    before: Publisher,
    after: Publisher,
    registry: &LocalRegistry,
    r: TransportResult<InMemoryEndpoint>,
)
    requires
        registry@.inv(),
        exists|m: &mut Publisher|
            *m == before && *final(m) == after && #[trigger] call_ensures(
                Publisher::get_or_resolve_endpoint,
                (m, registry),
                r,
            ),
    ensures
        after.address == before.address,
        match r {
            Ok(endpoint) => after.cached_endpoint == Some(endpoint),
            Err(_) => after.cached_endpoint == before.cached_endpoint,
        },
        ({
            ||| {
                &&& before.cached_endpoint matches Some(endpoint)
                &&& said_to_be_closed(registry@.store, endpoint.target, false)
                &&& endpoint.cached_version == registry@.store.version_of(endpoint.target)
                &&& r == Ok::<InMemoryEndpoint, TransportError>(endpoint)
            }
            ||| {
                &&& before.cached_endpoint matches Some(endpoint) ==> {
                    ||| said_to_be_closed(registry@.store, endpoint.target, true)
                    ||| endpoint.cached_version != registry@.store.version_of(endpoint.target)
                }
                &&& resolved(registry@, before.address@, r)
            }
        }),
{
    if before.reports_valid(registry@, true) && r == Ok::<InMemoryEndpoint, TransportError>(
        before.cached_endpoint->0,
    ) && after == before {
        let endpoint = before.cached_endpoint->0;
        let closed = choose|closed: bool| #[trigger]
            registry@.store.reports_closed(endpoint.target, closed) && true == (endpoint.fresh(
                registry@.store,
            ) && !closed);
        assert(said_to_be_closed(registry@.store, endpoint.target, false));
    } else {
        let closed = choose|closed: bool| #[trigger]
            InMemoryTransport::channel_reports(registry@, before.address@, closed)
                && InMemoryTransport::resolves(registry@, before.address@, closed, r);
        lemma_resolved(registry@, before.address@, closed, r);
        if let Some(endpoint) = before.cached_endpoint {
            let said = choose|said: bool| #[trigger]
                registry@.store.reports_closed(endpoint.target, said) && false == (endpoint.fresh(
                    registry@.store,
                ) && !said);
            assert(said_to_be_closed(registry@.store, endpoint.target, said));
        }
    }
}

/// Once sending has failed as the connection was closed, a publisher keeps no endpoint; any
/// other outcome leaves what it keeps. The outcome is passed on.
pub proof fn law_after_sending(
    before: Publisher,
    after: Publisher,
    sent: TransportResult<()>,
    r: TransportResult<()>,
)
    requires
        exists|m: &mut Publisher|
            *m == before && *final(m) == after && #[trigger] call_ensures(
                Publisher::after_send,
                (m, sent),
                r,
            ),
    ensures
        r == sent,
        after.address == before.address,
        sent matches Err(TransportError::ConnectionClosed) ==> after.cached_endpoint is None,
        !(sent matches Err(TransportError::ConnectionClosed)) ==> after.cached_endpoint
            == before.cached_endpoint,
{
}

/// Dropping the kept endpoint leaves none.
pub proof fn law_invalidating(before: Publisher, after: Publisher)
    requires
        exists|m: &mut Publisher|
            *m == before && *final(m) == after && #[trigger] call_ensures(
                Publisher::invalidate_cache,
                (m,),
                (),
            ),
    ensures
        after.cached_endpoint is None,
        after.address == before.address,
{
}

/// A new endpoint has the target that it was made for, with the version that this has now.
pub proof fn law_new_endpoint(
    target: RouteTarget,
    store: &RouteStore,
    version: u64,
    r: InMemoryEndpoint,
)
    requires
        call_ensures(RouteTarget::version, (&target, store), version),
        call_ensures(InMemoryEndpoint::new, (target, store), r),
    ensures
        r.target == target,
        r.cached_version == version,
{
}

/// A message to an endpoint is sent with the channel of its target, as it is now.
pub proof fn law_channel_of_an_endpoint<'a>(
    transport: &InMemoryTransport,
    registry: &'a LocalRegistry,
    endpoint: &InMemoryEndpoint,
    of_transport: TransportResult<&'a MessageSender>,
    of_endpoint: TransportResult<&'a MessageSender>,
)
    requires
        call_ensures(InMemoryTransport::channel_of, (transport, registry, endpoint), of_transport),
        call_ensures(InMemoryEndpoint::delivery, (endpoint, &registry.store), of_endpoint),
    ensures
        match channel_to(registry@.store, endpoint.target) {
            Some(channel) => (of_transport matches Ok(found) && *found == channel) && (
            of_endpoint matches Ok(found) && *found == channel),
            None => of_transport == Err::<&MessageSender, TransportError>(
                TransportError::ConnectionClosed,
            ) && of_endpoint == of_transport,
        },
{
}

/// What waits in a channel and what is free are all of its places.
pub proof fn law_load(sender: &MessageSender, load: ChannelLoad, pending: usize)
    requires
        call_ensures(MessageSender::load, (sender,), load),
        call_ensures(ChannelLoad::pending_messages, (&load,), pending),
    ensures
        pending + load.capacity == sender.limit(),
        sender.counts(load.capacity),
{
}

/// What a request that was to be queued comes to is what the queue answered, and the place for
/// the message is handed on as it is.
pub proof fn law_outcome_of_a_request(
    reply: oneshot::Receiver<Message>,
    sent: Option<Result<(), TrySendError<RequestToken>>>,
    r: Result<oneshot::Receiver<Message>, TryRequestError>,
)
    requires
        call_ensures(request_outcome::<oneshot::Receiver<Message>>, (reply, sent), r),
    ensures
        r matches Ok(place) ==> place == reply && sent matches Some(Ok(_)),
        r == Err::<oneshot::Receiver<Message>, TryRequestError>(TryRequestError::Full) <==> sent
            matches Some(Err(TrySendError::Full(_))),
        sent is None ==> r == Err::<oneshot::Receiver<Message>, TryRequestError>(
            TryRequestError::Disconnected,
        ),
        sent matches Some(Ok(_)) ==> r is Ok,
{
}

/// What waiting for a value comes to: the value if there is one, that the senders are gone if
/// none will come, and that the time is over otherwise.
pub proof fn law_outcome_of_waiting(
    waited: Wait<Option<Message>>,
    received: Result<Message, RecvTimeoutError>,
    replied: TransportResult<Message>,
)
    requires
        call_ensures(recv_outcome::<Message>, (waited,), received),
        call_ensures(BrokerClient::request_outcome, (waited,), replied),
    ensures
        match waited {
            Wait::Done(Some(message)) => received == Ok::<Message, RecvTimeoutError>(message)
                && replied == Ok::<Message, TransportError>(message),
            Wait::Done(None) => received == Err::<Message, RecvTimeoutError>(
                RecvTimeoutError::Disconnected,
            ) && replied == Err::<Message, TransportError>(TransportError::ConnectionClosed),
            Wait::Elapsed => received == Err::<Message, RecvTimeoutError>(
                RecvTimeoutError::Timeout,
            ) && replied == Err::<Message, TransportError>(TransportError::Timeout),
        },
{
}

} // verus!
