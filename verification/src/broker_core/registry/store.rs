//! The slots and groups of a registry, under the numbers by which routes refer to them.

use std::collections::HashMap;
use std::sync::Arc;
use vstd::prelude::*;

use super::load_balanced_group::LoadBalancedGroup;
use super::routing::RouteTarget;
use super::slot::{remove_slot_in, slot_removed, SubscriptionSlot};
use crate::broker_core::transport::channel::{MessageSender, RequestSender};

verus! {

broadcast use vstd::std_specs::hash::group_hash_axioms;

/// What a store holds.
#[verifier::ext_equal]
pub struct Store {
    pub slots: Map<u64, SubscriptionSlot>,
    pub groups: Map<u64, LoadBalancedGroup>,
    pub next_id: u64,
}

impl Store {
    /// Nothing at all.
    pub open spec fn empty() -> Store {
        Store { slots: Map::empty(), groups: Map::empty(), next_id: 0 }
    }

    /// Only numbers that were given out are in use.
    pub open spec fn inv(self) -> bool {
        &&& forall|id: u64| #[trigger] self.slots.contains_key(id) ==> id < self.next_id
        &&& forall|id: u64| #[trigger]
            self.groups.contains_key(id) ==> id < self.next_id && self.groups[id].slot
                < self.next_id
    }

    /// The store with one more slot.
    pub open spec fn with_slot(self, slot: SubscriptionSlot) -> Store {
        Store {
            slots: self.slots.insert(self.next_id, slot),
            next_id: (self.next_id + 1) as u64,
            ..self
        }
    }

    /// The store with one more group.
    pub open spec fn with_group(self, group: LoadBalancedGroup) -> Store {
        Store {
            groups: self.groups.insert(self.next_id, group),
            next_id: (self.next_id + 1) as u64,
            ..self
        }
    }

    /// The store with another channel in a slot.
    pub open spec fn with_sender(self, id: u64, sender: MessageSender) -> Store {
        if self.slots.contains_key(id) {
            Store { slots: self.slots.insert(id, self.slots[id].updated(sender)), ..self }
        } else {
            self
        }
    }

    /// The store after a slot was removed.
    pub open spec fn without_slot(self, id: u64) -> Store {
        Store { slots: slot_removed(self.slots, id), ..self }
    }

    /// The store after a group was shut down.
    pub open spec fn group_stopped(self, id: u64) -> Store {
        if self.groups.contains_key(id) {
            Store {
                slots: slot_removed(self.slots, self.groups[id].slot),
                groups: self.groups.insert(id, self.groups[id].stopped()),
                ..self
            }
        } else {
            self
        }
    }

    /// The store after a consumer joined a group.
    pub open spec fn consumer_joined(self, id: u64) -> Store {
        if self.groups.contains_key(id) {
            Store { groups: self.groups.insert(id, self.groups[id].joined()), ..self }
        } else {
            self
        }
    }

    /// The store after a consumer left a group: the last one shuts it down.
    pub open spec fn consumer_left(self, id: u64) -> Store {
        if !self.groups.contains_key(id) {
            self
        } else if self.groups[id].active_consumers == 1 {
            Store {
                slots: slot_removed(self.slots, self.groups[id].slot),
                groups: self.groups.insert(id, self.groups[id].left().stopped()),
                ..self
            }
        } else {
            Store { groups: self.groups.insert(id, self.groups[id].left()), ..self }
        }
    }

    /// The store after a slot was forgotten.
    pub open spec fn slot_released(self, id: u64) -> Store {
        Store { slots: self.slots.remove(id), ..self }
    }

    /// The store after a group was forgotten, with its slot.
    pub open spec fn group_released(self, id: u64) -> Store {
        if self.groups.contains_key(id) {
            Store {
                slots: self.slots.remove(self.groups[id].slot),
                groups: self.groups.remove(id),
                ..self
            }
        } else {
            self
        }
    }

    /// Whether the dispatcher of a group runs.
    pub open spec fn dispatcher_runs(self, id: u64) -> bool {
        self.groups.contains_key(id) && self.groups[id].dispatcher_running
    }

    /// Whether a group has one consumer.
    pub open spec fn last_consumer(self, id: u64) -> bool {
        self.groups.contains_key(id) && self.groups[id].active_consumers == 1
    }

    /// Whether a target is a group with more than one consumer.
    pub open spec fn shared(self, target: RouteTarget) -> bool {
        match target {
            RouteTarget::Single(_) => false,
            RouteTarget::LoadBalanced(id) => self.groups.contains_key(id)
                && self.groups[id].active_consumers > 1,
        }
    }

    /// The slot that messages to a target are sent to.
    pub open spec fn slot_of(self, target: RouteTarget) -> Option<u64> {
        match target {
            RouteTarget::Single(id) => Some(id),
            RouteTarget::LoadBalanced(id) => if self.groups.contains_key(id) {
                Some(self.groups[id].slot)
            } else {
                None
            },
        }
    }

    /// The channel to a target.
    pub open spec fn sender_of(self, target: RouteTarget) -> Option<MessageSender> {
        match self.slot_of(target) {
            Some(id) => if self.slots.contains_key(id) {
                self.slots[id].sender
            } else {
                None
            },
            None => None,
        }
    }

    /// Whether this is an answer to whether nothing can be delivered to a target: that of its
    /// channel, or of its group, if it has one, and otherwise that it is closed.
    pub open spec fn reports_closed(self, target: RouteTarget, closed: bool) -> bool {
        match target {
            RouteTarget::Single(_) => match self.sender_of(target) {
                Some(sender) => sender.reports(closed),
                None => closed,
            },
            RouteTarget::LoadBalanced(id) => if self.groups.contains_key(id) {
                self.groups[id].reports_empty(closed)
            } else {
                closed
            },
        }
    }

    /// The version of a target, 0 if it is gone.
    pub open spec fn version_of(self, target: RouteTarget) -> u64 {
        match target {
            RouteTarget::Single(id) => if self.slots.contains_key(id) {
                self.slots[id].version
            } else {
                0
            },
            RouteTarget::LoadBalanced(id) => if self.groups.contains_key(id) {
                self.groups[id].version
            } else {
                0
            },
        }
    }

    /// Whether the store holds the slot or the group of a target.
    pub open spec fn holds(self, target: RouteTarget) -> bool {
        match target {
            RouteTarget::Single(id) => self.slots.contains_key(id),
            RouteTarget::LoadBalanced(id) => self.groups.contains_key(id),
        }
    }

    /// The store after one of the subscriptions that share a target has left.
    pub open spec fn target_left(self, target: RouteTarget) -> Store {
        match target {
            RouteTarget::Single(_) => self,
            RouteTarget::LoadBalanced(id) => self.consumer_left(id),
        }
    }

    /// The store after the subscription behind a target was removed.
    pub open spec fn target_removed(self, target: RouteTarget) -> Store {
        match target {
            RouteTarget::Single(id) => self.without_slot(id),
            RouteTarget::LoadBalanced(id) => self.group_stopped(id),
        }
    }
}

/// The slots and groups of a registry.
pub struct RouteStore {
    /// The slots.
    pub slots: HashMap<u64, SubscriptionSlot>,
    /// The groups.
    pub groups: HashMap<u64, LoadBalancedGroup>,
    /// The number for the next slot or group.
    pub next_id: u64,
}

impl View for RouteStore {
    type V = Store;

    open spec fn view(&self) -> Store {
        Store { slots: self.slots@, groups: self.groups@, next_id: self.next_id }
    }
}

impl RouteStore {
    /// A store that holds nothing.
    pub fn new() -> (r: Self)
        ensures
            r@ == Store::empty(),
            r@.inv(),
    {
        RouteStore { slots: HashMap::new(), groups: HashMap::new(), next_id: 0 }
    }

    /// Puts a slot into the store, under a number that was not used before.
    pub fn add_slot(&mut self, slot: SubscriptionSlot) -> (r: u64)
        requires
            old(self)@.inv(),
            old(self)@.next_id < u64::MAX,
        ensures
            r == old(self)@.next_id,
            !old(self)@.slots.contains_key(r),
            final(self)@ == old(self)@.with_slot(slot),
            final(self)@.inv(),
    {
        let id: u64 = self.next_id;
        self.slots.insert(id, slot);
        self.next_id = id + 1;
        id
    }

    /// Puts a group into the store, under a number that was not used before.
    pub fn add_group(&mut self, group: LoadBalancedGroup) -> (r: u64)
        requires
            old(self)@.inv(),
            old(self)@.next_id < u64::MAX,
            group.slot < old(self)@.next_id,
        ensures
            r == old(self)@.next_id,
            !old(self)@.groups.contains_key(r),
            final(self)@ == old(self)@.with_group(group),
            final(self)@.inv(),
    {
        let id: u64 = self.next_id;
        self.groups.insert(id, group);
        self.next_id = id + 1;
        id
    }

    /// Puts another channel into a slot.
    pub fn update_slot(&mut self, id: u64, sender: MessageSender)
        ensures
            final(self)@ == old(self)@.with_sender(id, sender),
            old(self)@.inv() ==> final(self)@.inv(),
    {
        let ghost before = self@;
        if let Some(mut slot) = self.slots.remove(&id) {
            slot.update(sender);
            self.slots.insert(id, slot);
            assert(self@ =~= before.with_sender(id, sender));
        } else {
            assert(self@ =~= before);
        }
    }

    /// Marks a slot as removed.
    pub fn remove_slot(&mut self, id: u64)
        ensures
            final(self)@ == old(self)@.without_slot(id),
            old(self)@.inv() ==> final(self)@.inv(),
    {
        let ghost before = self@;
        remove_slot_in(&mut self.slots, id);
        assert(forall|k: u64| #[trigger]
            self@.slots.contains_key(k) ==> before.slots.contains_key(k));
        assert(forall|k: u64| #[trigger]
            self@.groups.contains_key(k) ==> before.groups.contains_key(k));
    }

    /// Shuts a group down, and returns whether its dispatcher is to be stopped.
    pub fn shutdown_group(&mut self, id: u64) -> (r: bool)
        ensures
            r == old(self)@.dispatcher_runs(id),
            final(self)@ == old(self)@.group_stopped(id),
            old(self)@.inv() ==> final(self)@.inv(),
    {
        let ghost before = self@;
        match self.groups.remove(&id) {
            Some(mut group) => {
                let r = group.shutdown(&mut self.slots);
                self.groups.insert(id, group);
                assert(self@ =~= before.group_stopped(id));
                r
            },
            None => {
                assert(self@ =~= before);
                false
            },
        }
    }

    /// Adds a consumer to a group, and returns its handle on the request channel.
    pub fn subscribe_group(&mut self, id: u64) -> (r: Option<Arc<RequestSender>>)
        ensures
            match r {
                Some(handle) => old(self)@.groups.contains_key(id) && handle
                    == old(self)@.groups[id].req_tx,
                None => !old(self)@.groups.contains_key(id),
            },
            final(self)@ == old(self)@.consumer_joined(id),
            old(self)@.inv() ==> final(self)@.inv(),
    {
        let ghost before = self@;
        match self.groups.remove(&id) {
            Some(mut group) => {
                let handle = group.subscribe();
                self.groups.insert(id, group);
                assert(self@ =~= before.consumer_joined(id));
                Some(handle)
            },
            None => {
                assert(self@ =~= before);
                None
            },
        }
    }

    /// Takes a consumer out of a group, and returns whether its dispatcher is to be stopped.
    pub fn remove_consumer(&mut self, id: u64) -> (r: bool)
        ensures
            r == (old(self)@.dispatcher_runs(id) && old(self)@.last_consumer(id)),
            final(self)@ == old(self)@.consumer_left(id),
            old(self)@.inv() ==> final(self)@.inv(),
    {
        let ghost before = self@;
        match self.groups.remove(&id) {
            Some(mut group) => {
                let r = group.remove_consumer(&mut self.slots);
                self.groups.insert(id, group);
                assert(self@ =~= before.consumer_left(id));
                r
            },
            None => {
                assert(self@ =~= before);
                false
            },
        }
    }

    /// Forgets a slot to which no route leads any more.
    pub fn release_slot(&mut self, id: u64)
        ensures
            final(self)@ == old(self)@.slot_released(id),
            old(self)@.inv() ==> final(self)@.inv(),
    {
        let ghost before = self@;
        self.slots.remove(&id);
        assert(forall|k: u64| #[trigger]
            self@.slots.contains_key(k) ==> before.slots.contains_key(k));
        assert(forall|k: u64| #[trigger]
            self@.groups.contains_key(k) ==> before.groups.contains_key(k));
    }

    /// Shuts a group down and forgets it, with its slot. Returns whether its dispatcher is to
    /// be stopped.
    pub fn release_group(&mut self, id: u64) -> (r: bool)
        ensures
            r == old(self)@.dispatcher_runs(id),
            final(self)@ == old(self)@.group_released(id),
            old(self)@.inv() ==> final(self)@.inv(),
    {
        let ghost before = self@;
        match self.groups.remove(&id) {
            Some(mut group) => {
                let r = group.shutdown(&mut self.slots);
                self.slots.remove(&group.slot);
                assert(self@.slots =~= before.slots.remove(before.groups[id].slot));
                r
            },
            None => {
                assert(self@ =~= before);
                false
            },
        }
    }
}

} // verus!
