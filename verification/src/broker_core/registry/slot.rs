//! Subscription slots.

use std::collections::HashMap;
use vstd::prelude::*;

use crate::broker_core::transport::channel::MessageSender;

verus! {

broadcast use vstd::std_specs::hash::group_hash_axioms;

/// The version that follows `version`. Versions wrap around.
pub open spec fn next_version(version: u64) -> u64 {
    if version == u64::MAX {
        0
    } else {
        (version + 1) as u64
    }
}

/// The place of a subscription in the registry.
pub struct SubscriptionSlot {
    /// The channel to the subscriber, `None` once the subscription was removed.
    pub sender: Option<MessageSender>,
    /// A number that every change of the slot moves on.
    pub version: u64,
}

impl SubscriptionSlot {
    /// A slot for a new subscription, of version 1.
    pub fn new(sender: MessageSender) -> (r: Self)
        ensures
            r.sender == Some(sender),
            r.version == 1,
    {
        SubscriptionSlot { sender: Some(sender), version: 1 }
    }

    /// The slot with another channel.
    pub open spec fn updated(self, sender: MessageSender) -> SubscriptionSlot {
        SubscriptionSlot { sender: Some(sender), version: next_version(self.version) }
    }

    /// The slot without a channel.
    pub open spec fn removed(self) -> SubscriptionSlot {
        SubscriptionSlot { sender: None, version: next_version(self.version) }
    }

    /// Replaces the channel and moves the version on.
    pub fn update(&mut self, new_sender: MessageSender)
        ensures
            *final(self) == old(self).updated(new_sender),
    {
        self.sender = Some(new_sender);
        self.version = self.version.wrapping_add(1);
    }

    /// Marks the slot as removed and moves the version on.
    pub fn mark_removed(&mut self)
        ensures
            *final(self) == old(self).removed(),
    {
        self.sender = None;
        self.version = self.version.wrapping_add(1);
    }

    /// The channel and the version.
    pub fn load(&self) -> (r: (Option<&MessageSender>, u64))
        ensures
            match r.0 {
                Some(sender) => self.sender == Some(*sender),
                None => self.sender is None,
            },
            r.1 == self.version,
    {
        (self.sender.as_ref(), self.version)
    }

    /// Whether nothing can be delivered to the slot, given whether the receiving side of its
    /// channel is gone.
    pub fn closed_when(&self, channel_closed: bool) -> (r: bool)
        ensures
            r == (self.sender is None || channel_closed),
    {
        self.sender.is_none() || channel_closed
    }

    /// Whether nothing can be delivered to the slot: it was removed, or the receiving side of
    /// its channel is gone. The latter depends on other tasks; `closed_when` says what follows
    /// from that.
    pub fn is_closed(&self) -> (r: bool)
        ensures
            self.sender is None ==> r,
            match self.sender {
                Some(sender) => sender.reports(r),
                None => r,
            },
    {
        let channel_closed = match &self.sender {
            Some(sender) => sender.is_closed(),
            None => true,
        };
        self.closed_when(channel_closed)
    }
}

/// `slots` with the one numbered `id` marked as removed, if there is one.
pub open spec fn slot_removed(slots: Map<u64, SubscriptionSlot>, id: u64) -> Map<
    u64,
    SubscriptionSlot,
> {
    if slots.contains_key(id) {
        slots.insert(id, slots[id].removed())
    } else {
        slots
    }
}

/// Marks the slot numbered `id` as removed, if there is one.
pub fn remove_slot_in(slots: &mut HashMap<u64, SubscriptionSlot>, id: u64)
    ensures
        final(slots)@ == slot_removed(old(slots)@, id),
{
    let ghost before = slots@;
    if let Some(mut slot) = slots.remove(&id) {
        slot.mark_removed();
        slots.insert(id, slot);
        assert(slots@ =~= slot_removed(before, id));
    } else {
        assert(slots@ =~= before);
    }
}

} // verus!
