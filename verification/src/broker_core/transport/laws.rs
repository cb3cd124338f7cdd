//! What holds of endpoints that are kept while the registry changes.

use vstd::prelude::*;

use super::channel::MessageSender;
use super::in_memory::InMemoryEndpoint;
use crate::broker_core::registry::load_balanced_group::LoadBalancedGroup;
use crate::broker_core::registry::routing::RouteTarget;
use crate::broker_core::registry::slot::{next_version, SubscriptionSlot};
use crate::broker_core::registry::store::Store;

verus! {

/// The version that comes `n` changes after `version`.
pub open spec fn version_after(version: u64, n: nat) -> int {
    (version + n) % 0x1_0000_0000_0000_0000
}

/// One more change moves a version on by one.
proof fn lemma_next_version(version: u64, n: nat, later: u64)
    requires
        later == version_after(version, n),
    ensures
        next_version(later) == version_after(version, n + 1),
{
}

/// A version comes back only after as many changes as there are versions.
proof fn lemma_version_moved(version: u64, n: nat)
    requires
        n < 0x1_0000_0000_0000_0000,
    ensures
        version_after(version, n) == version <==> n == 0,
{
}

// ---------------------------------------------------------------------------------------
// Slots
// ---------------------------------------------------------------------------------------

/// A slot after a change: another channel, or none if the subscription is removed.
pub open spec fn slot_changed(
    slot: SubscriptionSlot,
    channel: Option<MessageSender>,
) -> SubscriptionSlot {
    match channel {
        Some(sender) => slot.updated(sender),
        None => slot.removed(),
    }
}

/// A slot after these changes.
pub open spec fn slot_after(
    slot: SubscriptionSlot,
    changes: Seq<Option<MessageSender>>,
) -> SubscriptionSlot
    decreases changes.len(),
{
    if changes.len() == 0 {
        slot
    } else {
        slot_changed(slot_after(slot, changes.drop_last()), changes.last())
    }
}

proof fn lemma_slot_version(slot: SubscriptionSlot, changes: Seq<Option<MessageSender>>)
    ensures
        slot_after(slot, changes).version == version_after(slot.version, changes.len()),
    decreases changes.len(),
{
    if changes.len() > 0 {
        let earlier = changes.drop_last();
        lemma_slot_version(slot, earlier);
        lemma_next_version(slot.version, earlier.len(), slot_after(slot, earlier).version);
    }
}

/// However often a slot is changed, its version tells: it is another one as long as there
/// were fewer changes than there are versions.
pub proof fn law_slot_changes_are_noticed(
    slot: SubscriptionSlot,
    changes: Seq<Option<MessageSender>>,
)
    requires
        0 < changes.len() < 0x1_0000_0000_0000_0000,
    ensures
        slot_after(slot, changes).version != slot.version,
{
    lemma_slot_version(slot, changes);
    lemma_version_moved(slot.version, changes.len());
}

// ---------------------------------------------------------------------------------------
// Endpoints
// ---------------------------------------------------------------------------------------

/// A change of what the registry has behind its routes.
pub enum StoreChange {
    /// There is a new slot.
    SlotAdded(SubscriptionSlot),
    /// There is a new group.
    GroupAdded(LoadBalancedGroup),
    /// A slot gets another channel.
    Updated(u64, MessageSender),
    /// A slot is removed.
    Removed(u64),
    /// A group is shut down.
    Stopped(u64),
    /// A consumer joins a group.
    Joined(u64),
    /// A consumer leaves a group.
    Left(u64),
    /// A slot is forgotten.
    SlotReleased(u64),
    /// A group is forgotten, with its slot.
    GroupReleased(u64),
}

impl StoreChange {
    /// The store after the change.
    pub open spec fn applied(self, store: Store) -> Store {
        match self {
            StoreChange::SlotAdded(slot) => store.with_slot(slot),
            StoreChange::GroupAdded(group) => store.with_group(group),
            StoreChange::Updated(id, sender) => store.with_sender(id, sender),
            StoreChange::Removed(id) => store.without_slot(id),
            StoreChange::Stopped(id) => store.group_stopped(id),
            StoreChange::Joined(id) => store.consumer_joined(id),
            StoreChange::Left(id) => store.consumer_left(id),
            StoreChange::SlotReleased(id) => store.slot_released(id),
            StoreChange::GroupReleased(id) => store.group_released(id),
        }
    }

    /// Whether the change takes a number that was not used before.
    pub open spec fn takes_number(self) -> bool {
        self is SlotAdded || self is GroupAdded
    }

    /// The group that the change shuts down or forgets.
    pub open spec fn ended_group(self, store: Store) -> Option<u64> {
        match self {
            StoreChange::Stopped(id) => if store.groups.contains_key(id) {
                Some(id)
            } else {
                None
            },
            StoreChange::Left(id) => if store.last_consumer(id) {
                Some(id)
            } else {
                None
            },
            StoreChange::GroupReleased(id) => if store.groups.contains_key(id) {
                Some(id)
            } else {
                None
            },
            _ => None,
        }
    }

    /// Whether the change replaces or removes the channel to a target: that of the slot of an
    /// exclusive subscription, or that of a whole group.
    pub open spec fn concerns(self, store: Store, target: RouteTarget) -> bool {
        match target {
            RouteTarget::Single(slot) => match self {
                StoreChange::Updated(id, _) => id == slot,
                StoreChange::Removed(id) => id == slot,
                StoreChange::SlotReleased(id) => id == slot,
                _ => match self.ended_group(store) {
                    Some(id) => store.groups[id].slot == slot,
                    None => false,
                },
            },
            RouteTarget::LoadBalanced(group) => self.ended_group(store) == Some(group),
        }
    }
}

/// The store after these changes.
pub open spec fn store_after(store: Store, changes: Seq<StoreChange>) -> Store
    decreases changes.len(),
{
    if changes.len() == 0 {
        store
    } else {
        changes.last().applied(store_after(store, changes.drop_last()))
    }
}

/// How many of these changes concern a target.
pub open spec fn times_changed(store: Store, changes: Seq<StoreChange>, target: RouteTarget) -> nat
    decreases changes.len(),
{
    if changes.len() == 0 {
        0
    } else {
        let earlier = changes.drop_last();
        let last: nat = if changes.last().concerns(store_after(store, earlier), target) {
            1
        } else {
            0
        };
        times_changed(store, earlier, target) + last
    }
}

/// How many numbers these changes take.
pub open spec fn numbers_taken(changes: Seq<StoreChange>) -> nat
    decreases changes.len(),
{
    if changes.len() == 0 {
        0
    } else {
        let last: nat = if changes.last().takes_number() {
            1
        } else {
            0
        };
        numbers_taken(changes.drop_last()) + last
    }
}

/// Only numbers that were given out are in use, and the number of a target is one of them.
spec fn numbered(store: Store, target: RouteTarget) -> bool {
    &&& forall|id: u64| #[trigger] store.slots.contains_key(id) ==> id < store.next_id
    &&& forall|id: u64| #[trigger] store.groups.contains_key(id) ==> id < store.next_id
    &&& match target {
        RouteTarget::Single(id) => id < store.next_id,
        RouteTarget::LoadBalanced(id) => id < store.next_id,
    }
}

/// One change either concerns a target that is held, and then moves its version on or takes
/// it away, or leaves it as it is. A target that is gone does not come back.
proof fn lemma_change(store: Store, change: StoreChange, target: RouteTarget)
    requires
        numbered(store, target),
        change.takes_number() ==> store.next_id < u64::MAX,
    ensures
        numbered(change.applied(store), target),
        change.applied(store).next_id == (if change.takes_number() {
            store.next_id + 1
        } else {
            store.next_id as int
        }),
        !store.holds(target) ==> !change.applied(store).holds(target),
        store.holds(target) && change.concerns(store, target) && change.applied(store).holds(target)
            ==> change.applied(store).version_of(target) == next_version(store.version_of(target)),
        store.holds(target) && !change.concerns(store, target) ==> {
            &&& change.applied(store).holds(target)
            &&& change.applied(store).version_of(target) == store.version_of(target)
            &&& target is Single ==> change.applied(store).sender_of(target) == store.sender_of(
                target,
            )
        },
{
}

proof fn lemma_changes(store: Store, changes: Seq<StoreChange>, target: RouteTarget)
    requires
        numbered(store, target),
        store.holds(target),
        store.next_id + numbers_taken(changes) <= u64::MAX,
    ensures
        ({
            let after = store_after(store, changes);
            let n = times_changed(store, changes, target);
            &&& numbered(after, target)
            &&& after.next_id == store.next_id + numbers_taken(changes)
            &&& after.holds(target) ==> after.version_of(target) == version_after(
                store.version_of(target),
                n,
            )
            &&& n == 0 ==> after.holds(target)
            &&& n == 0 && target is Single ==> after.sender_of(target) == store.sender_of(target)
        }),
    decreases changes.len(),
{
    if changes.len() > 0 {
        let earlier = changes.drop_last();
        lemma_changes(store, earlier, target);
        let before = store_after(store, earlier);
        lemma_change(before, changes.last(), target);
        if before.holds(target) {
            lemma_next_version(
                store.version_of(target),
                times_changed(store, earlier, target),
                before.version_of(target),
            );
        }
    }
}

/// An endpoint stays fresh, and its target held, exactly as long as nothing that happens in the
/// registry concerns its target: once the channel to the target was replaced or removed, or
/// the target forgotten, the endpoint is not usable and so not valid, from then on and
/// whatever channel the target has. Until then an exclusive target keeps its channel. Other
/// subscriptions may come, change, go and be forgotten. There must be fewer changes of the
/// target than there are versions, and numbers left for what is new.
pub proof fn law_endpoint_is_fresh_until_its_target_changes(
    store: Store,
    changes: Seq<StoreChange>,
    target: RouteTarget,
)
    requires
        store.inv(),
        store.holds(target),
        store.next_id + numbers_taken(changes) <= u64::MAX,
        times_changed(store, changes, target) < 0x1_0000_0000_0000_0000,
    ensures
        ({
            let endpoint = InMemoryEndpoint::at(target, store);
            let after = store_after(store, changes);
            let n = times_changed(store, changes, target);
            &&& endpoint.fresh(after) && after.holds(target) <==> n == 0
            &&& n > 0 ==> !endpoint.usable(after)
            &&& n == 0 && target is Single ==> after.sender_of(target) == store.sender_of(target)
        }),
{
    lemma_changes(store, changes, target);
    lemma_version_moved(store.version_of(target), times_changed(store, changes, target));
}

/// Once the subscription behind a target is removed, no endpoint that was made for the target
/// before is fresh, so none is used again, and nothing can be sent to the target.
pub proof fn law_removal_invalidates_endpoints(store: Store, target: RouteTarget)
    requires
        store.holds(target),
    ensures
        !InMemoryEndpoint::at(target, store).fresh(store.target_removed(target)),
        store.target_removed(target).sender_of(target) is None,
{
}

/// A change of one slot leaves the endpoints of other slots fresh.
pub proof fn law_removal_keeps_other_endpoints(store: Store, one: u64, other: u64)
    requires
        one != other,
    ensures
        InMemoryEndpoint::at(RouteTarget::Single(other), store).fresh(
            store.target_removed(RouteTarget::Single(one)),
        ),
        store.target_removed(RouteTarget::Single(one)).sender_of(RouteTarget::Single(other))
            == store.sender_of(RouteTarget::Single(other)),
{
}

/// A subscription that takes the place of a removed one has another slot, so an endpoint of
/// the old one is not taken for one of the new one.
pub proof fn law_slots_are_not_reused(store: Store, slot: SubscriptionSlot, old_target: RouteTarget)
    requires
        store.inv(),
        store.holds(old_target),
    ensures
        old_target != RouteTarget::Single(store.next_id),
        old_target != RouteTarget::LoadBalanced(store.next_id),
        store.with_slot(slot).version_of(old_target) == store.version_of(old_target),
        store.with_slot(slot).holds(old_target),
{
}

} // verus!
