//! Routing policies and routing targets.

use std::sync::Arc;
use vstd::prelude::*;

use super::load_balanced_group::{Dispatcher, LoadBalancedGroup};
use super::store::RouteStore;
use crate::broker_core::transport::channel::{
    MessageReceiver, MessageSender, RequestSender, SendError,
};
use crate::broker_core::transport::raw::queue_bound;
use crate::broker_core::transport::{TransportError, TransportResult};
use crate::protocol::Message;

verus! {

broadcast use vstd::std_specs::hash::group_hash_axioms;

/// How messages to an address are handed to its subscribers.
#[derive(Debug, Clone, Copy, PartialEq, Eq, Structural)]
pub enum RoutingPolicy {
    /// Only one subscriber.
    Exclusive,
    /// Each message goes to one of the subscribers.
    LoadBalanced,
}

/// Where the messages to an address go. A target is a handle: the slot or the group itself
/// stands in the registry's store under this number.
#[derive(Debug, Clone, Copy, PartialEq, Eq, Structural)]
pub enum RouteTarget {
    /// One subscription slot.
    Single(u64),
    /// A group of consumers that share one slot.
    LoadBalanced(u64),
}

/// What sending a message to a target comes to, given what its channel did with it.
pub fn send_outcome(sent: Result<(), SendError<Message>>) -> (r: TransportResult<()>)
    ensures
        sent is Ok ==> r == Ok::<(), TransportError>(()),
        sent is Err ==> r == Err::<(), TransportError>(TransportError::ConnectionClosed),
{
    match sent {
        Ok(()) => Ok(()),
        Err(_) => Err(TransportError::ConnectionClosed),
    }
}

impl RouteTarget {
    /// The target of an exclusive subscription with this slot.
    pub fn new_exclusive(slot: u64) -> (r: Self)
        ensures
            r == RouteTarget::Single(slot),
    {
        RouteTarget::Single(slot)
    }

    /// The target of a new group with this slot, with what its dispatcher needs.
    pub fn new_load_balanced(
        store: &mut RouteStore,
        slot: u64,
        main_receiver: MessageReceiver,
        req_channel_capacity: usize,
        address: String,
    ) -> (r: (Self, Dispatcher))
        requires
            old(store)@.inv(),
            slot < old(store)@.next_id < u64::MAX,
            0 < req_channel_capacity <= queue_bound(),
        ensures
            r.0 == RouteTarget::LoadBalanced(old(store)@.next_id),
            final(store)@.inv(),
            final(store)@ == old(store)@.with_group(final(store)@.groups[old(store)@.next_id]),
            new_group(
                final(store)@.groups[old(store)@.next_id],
                slot,
                req_channel_capacity,
                address@,
            ),
            r.1.requests == final(store)@.groups[old(store)@.next_id].req_tx.receiver(),
            r.1.messages == main_receiver,
            r.1.slot == slot,
            r.1.address@ == address@,
    {
        let (group, dispatcher) = LoadBalancedGroup::new(
            slot,
            main_receiver,
            req_channel_capacity,
            address,
        );
        assert(new_group(group, slot, req_channel_capacity, address@));
        let id: u64 = store.add_group(group);
        (RouteTarget::LoadBalanced(id), dispatcher)
    }

    /// The slot that messages to the target are sent to.
    pub fn slot(&self, store: &RouteStore) -> (r: Option<u64>)
        ensures
            r == store@.slot_of(*self),
    {
        match self {
            RouteTarget::Single(id) => Some(*id),
            RouteTarget::LoadBalanced(id) => match store.groups.get(id) {
                Some(group) => Some(group.slot),
                None => None,
            },
        }
    }

    /// The channel to send messages to the target with.
    pub fn delivery<'a>(&self, store: &'a RouteStore) -> (r: TransportResult<&'a MessageSender>)
        ensures
            match store@.sender_of(*self) {
                Some(sender) => r matches Ok(s) && *s == sender,
                None => r == Err::<&MessageSender, TransportError>(
                    TransportError::ConnectionClosed,
                ),
            },
    {
        let slot: u64 = match self.slot(store) {
            Some(slot) => slot,
            None => {
                return Err(TransportError::ConnectionClosed);
            },
        };
        match store.slots.get(&slot) {
            Some(found) => match &found.sender {
                Some(sender) => Ok(sender),
                None => Err(TransportError::ConnectionClosed),
            },
            None => Err(TransportError::ConnectionClosed),
        }
    }

    /// Removes the subscription with this slot, if it is one that the target leads to. From a
    /// group with several consumers one leaves, and the others go on; otherwise the slot is
    /// removed or the group shut down. Returns whether nobody is left, so that the route is to
    /// be removed too.
    pub fn remove_slot(&self, store: &mut RouteStore, slot: u64) -> (r: bool)
        ensures
            r == (old(store)@.slot_of(*self) == Some(slot) && !old(store)@.shared(*self)),
            final(store)@ == (if old(store)@.slot_of(*self) != Some(slot) {
                old(store)@
            } else if old(store)@.shared(*self) {
                old(store)@.target_left(*self)
            } else {
                old(store)@.target_removed(*self)
            }),
            old(store)@.inv() ==> final(store)@.inv(),
    {
        match self {
            RouteTarget::Single(id) => {
                if *id == slot {
                    store.remove_slot(*id);
                    true
                } else {
                    false
                }
            },
            RouteTarget::LoadBalanced(id) => {
                let (group_slot, consumers): (u64, usize) = match store.groups.get(id) {
                    Some(group) => (group.slot, group.consumer_count()),
                    None => {
                        return false;
                    },
                };
                if group_slot != slot {
                    false
                } else if consumers > 1 {
                    store.remove_consumer(*id);
                    false
                } else {
                    store.shutdown_group(*id);
                    true
                }
            },
        }
    }

    /// Joins the group that the target leads to, and returns the handle of the new consumer.
    pub fn request_sender(&self, store: &mut RouteStore) -> (r: Option<Arc<RequestSender>>)
        ensures
            match *self {
                RouteTarget::LoadBalanced(id) => {
                    &&& final(store)@ == old(store)@.consumer_joined(id)
                    &&& match r {
                        Some(handle) => old(store)@.groups.contains_key(id) && handle
                            == old(store)@.groups[id].req_tx,
                        None => !old(store)@.groups.contains_key(id),
                    }
                },
                RouteTarget::Single(_) => r is None && final(store)@ == old(store)@,
            },
    {
        match self {
            RouteTarget::LoadBalanced(id) => store.subscribe_group(*id),
            RouteTarget::Single(_) => None,
        }
    }

    /// The group that the target leads to.
    pub fn load_balanced_group(&self) -> (r: Option<u64>)
        ensures
            r == match *self {
                RouteTarget::LoadBalanced(id) => Some(id),
                RouteTarget::Single(_) => None,
            },
    {
        match self {
            RouteTarget::LoadBalanced(id) => Some(*id),
            RouteTarget::Single(_) => None,
        }
    }

    /// The version of the target, by which a change is noticed; 0 if the target is gone.
    pub fn version(&self, store: &RouteStore) -> (r: u64)
        ensures
            r == store@.version_of(*self),
    {
        match self {
            RouteTarget::Single(id) => match store.slots.get(id) {
                Some(slot) => slot.version,
                None => 0,
            },
            RouteTarget::LoadBalanced(id) => match store.groups.get(id) {
                Some(group) => group.version(),
                None => 0,
            },
        }
    }

    /// Whether nothing can be delivered to the target, given whether its receivers are gone:
    /// the receiving side of its channel, or the consumers of its group.
    pub fn closed_when(&self, store: &RouteStore, receivers_gone: bool) -> (r: bool)
        ensures
            r == (receivers_gone || match *self {
                RouteTarget::Single(_) => store@.sender_of(*self) is None,
                RouteTarget::LoadBalanced(_) => !store@.holds(*self),
            }),
    {
        match self {
            RouteTarget::Single(id) => match store.slots.get(id) {
                Some(slot) => slot.closed_when(receivers_gone),
                None => true,
            },
            RouteTarget::LoadBalanced(id) => match store.groups.get(id) {
                Some(_) => receivers_gone,
                None => true,
            },
        }
    }

    /// Whether nothing can be delivered to the target: its subscription was removed, the
    /// receiving side of its channel is gone, or no consumer is left in its group. Whether the
    /// receivers are gone depends on other tasks; `closed_when` says what follows from that.
    pub fn is_closed(&self, store: &RouteStore) -> (r: bool)
        ensures
            !store@.holds(*self) ==> r,
            (*self matches RouteTarget::Single(_)) && store@.sender_of(*self) is None ==> r,
            store@.reports_closed(*self, r),
    {
        let receivers_gone = match self {
            RouteTarget::Single(id) => match store.slots.get(id) {
                Some(slot) => slot.is_closed(),
                None => true,
            },
            RouteTarget::LoadBalanced(id) => match store.groups.get(id) {
                Some(group) => group.is_empty(),
                None => true,
            },
        };
        self.closed_when(store, receivers_gone)
    }
}

/// Whether `group` is new, with this slot, this many places for requests and this address.
pub open spec fn new_group(
    group: LoadBalancedGroup,
    slot: u64,
    capacity: usize,
    address: Seq<char>,
) -> bool {
    &&& group.slot == slot
    &&& group.dispatcher_running
    &&& group.version == 1
    &&& group.req_tx.limit() == capacity
    &&& group.address@ == address
    &&& group.active_consumers == 0
}

} // verus!
