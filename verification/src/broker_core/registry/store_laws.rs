//! What the operations on slots, groups and their store change, and what they leave.

use std::collections::HashMap;
use std::sync::Arc;
use vstd::prelude::*;

use super::load_balanced_group::{Dispatcher, LoadBalancedGroup};
use super::operation_laws::{ended, group_behind, one_less, others_kept, rest_kept, slot_behind};
use super::routing::RouteTarget;
use super::slot::SubscriptionSlot;
use super::store::RouteStore;
use crate::broker_core::transport::channel::{MessageReceiver, MessageSender, RequestSender};

verus! {

// ---------------------------------------------------------------------------------------
// Slots
// ---------------------------------------------------------------------------------------

/// Updating a slot puts the new channel in and gives it another version.
pub proof fn law_updating_a_slot(
    before: SubscriptionSlot,
    after: SubscriptionSlot,
    sender: MessageSender,
)
    requires
        exists|m: &mut SubscriptionSlot|
            *m == before && *final(m) == after && #[trigger] call_ensures(
                SubscriptionSlot::update,
                (m, sender),
                (),
            ),
    ensures
        after.sender == Some(sender),
        before.version < u64::MAX ==> after.version == before.version + 1,
        after.version != before.version,
{
}

/// Removing a slot takes its channel out and gives it another version.
pub proof fn law_removing_a_slot(before: SubscriptionSlot, after: SubscriptionSlot)
    requires
        exists|m: &mut SubscriptionSlot|
            *m == before && *final(m) == after && #[trigger] call_ensures(
                SubscriptionSlot::mark_removed,
                (m,),
                (),
            ),
    ensures
        after.sender is None,
        before.version < u64::MAX ==> after.version == before.version + 1,
        after.version != before.version,
{
}

// ---------------------------------------------------------------------------------------
// Groups
// ---------------------------------------------------------------------------------------

/// Whether two groups are the same but for how many consumers they count.
pub open spec fn same_but_consumers(a: LoadBalancedGroup, b: LoadBalancedGroup) -> bool {
    &&& a.slot == b.slot
    &&& a.dispatcher_running == b.dispatcher_running
    &&& a.version == b.version
    &&& a.req_tx == b.req_tx
    &&& a.address == b.address
}

/// A consumer that joins is counted, and gets the request channel that all share.
pub proof fn law_joining_a_group(
    before: LoadBalancedGroup,
    after: LoadBalancedGroup,
    r: Arc<RequestSender>,
)
    requires
        exists|m: &mut LoadBalancedGroup|
            *m == before && *final(m) == after && #[trigger] call_ensures(
                LoadBalancedGroup::subscribe,
                (m,),
                r,
            ),
    ensures
        r == before.req_tx,
        same_but_consumers(before, after),
        before.active_consumers < usize::MAX ==> after.active_consumers == before.active_consumers
            + 1,
{
}

/// A consumer that leaves is no longer counted. The last one shuts the group down, and nobody
/// else does: then the slot is removed, the version is another one, and the dispatcher is to
/// be stopped if it ran.
pub proof fn law_leaving_a_group(
    before: LoadBalancedGroup,
    after: LoadBalancedGroup,
    slots_before: HashMap<u64, SubscriptionSlot>,
    slots_after: HashMap<u64, SubscriptionSlot>,
    r: bool,
)
    requires
        exists|m: &mut LoadBalancedGroup, slots: &mut HashMap<u64, SubscriptionSlot>|
            *m == before && *final(m) == after && *slots == slots_before && *final(slots)
                == slots_after && #[trigger] call_ensures(
                LoadBalancedGroup::remove_consumer,
                (m, slots),
                r,
            ),
    ensures
        before.active_consumers > 0 ==> after.active_consumers == before.active_consumers - 1,
        r <==> before.active_consumers == 1 && before.dispatcher_running,
        before.active_consumers != 1 ==> same_but_consumers(before, after) && slots_after@
            == slots_before@,
        before.active_consumers == 1 ==> {
            &&& !after.dispatcher_running
            &&& after.version != before.version
            &&& after.slot == before.slot
            &&& after.req_tx == before.req_tx
            &&& slots_before@.contains_key(before.slot) ==> slots_after@[before.slot].sender is None
            &&& forall|id: u64|
                #![trigger slots_after@.contains_key(id)]
                id != before.slot && slots_before@.contains_key(id) ==> slots_after@.contains_key(
                    id,
                ) && slots_after@[id] == slots_before@[id]
        },
{
    assert forall|id: u64|
        #![trigger slots_after@.contains_key(id)]
        before.active_consumers == 1 && id != before.slot && slots_before@.contains_key(
            id,
        ) implies slots_after@.contains_key(id) && slots_after@[id] == slots_before@[id] by {}
}

/// A new group has no consumers, reads its messages where it was told to, and takes as many
/// requests as it was told to.
pub proof fn law_new_group(
    slot: u64,
    messages: MessageReceiver,
    capacity: usize,
    address: String,
    group: LoadBalancedGroup,
    dispatcher: Dispatcher,
)
    requires
        call_ensures(
            LoadBalancedGroup::new,
            (slot, messages, capacity, address),
            (group, dispatcher),
        ),
    ensures
        group.active_consumers == 0,
        group.slot == slot && dispatcher.slot == slot,
        group.address@ == address@ && dispatcher.address@ == address@,
        group.dispatcher_running,
        dispatcher.messages == messages,
        group.req_tx.limit() == capacity,
        dispatcher.requests == group.req_tx.receiver(),
{
}

// ---------------------------------------------------------------------------------------
// The store
// ---------------------------------------------------------------------------------------

/// A slot that is put in gets a number that was not used before, and nothing else changes.
pub proof fn law_adding_a_slot(
    before: RouteStore,
    after: RouteStore,
    slot: SubscriptionSlot,
    r: u64,
)
    requires
        before@.inv(),
        before@.next_id < u64::MAX,
        exists|m: &mut RouteStore|
            *m == before && *final(m) == after && #[trigger] call_ensures(
                RouteStore::add_slot,
                (m, slot),
                r,
            ),
    ensures
        !before@.slots.contains_key(r) && !before@.groups.contains_key(r),
        after@.slots.contains_key(r) && after@.slots[r] == slot,
        others_kept(before@, after@, Some(r), None),
        after@.next_id > r && after@.next_id > before@.next_id,
        after@.inv(),
{
}

/// A group that is put in gets a number that was not used before, and nothing else changes.
pub proof fn law_adding_a_group(
    before: RouteStore,
    after: RouteStore,
    group: LoadBalancedGroup,
    r: u64,
)
    requires
        before@.inv(),
        before@.next_id < u64::MAX,
        exists|m: &mut RouteStore|
            *m == before && *final(m) == after && #[trigger] call_ensures(
                RouteStore::add_group,
                (m, group),
                r,
            ),
    ensures
        !before@.slots.contains_key(r) && !before@.groups.contains_key(r),
        after@.groups.contains_key(r) && after@.groups[r] == group,
        others_kept(before@, after@, None, Some(r)),
        after@.next_id > r && after@.next_id > before@.next_id,
        after@.inv(),
{
}

/// Putting another channel into a slot changes this slot alone, if there is one.
pub proof fn law_replacing_a_channel(
    before: RouteStore,
    after: RouteStore,
    id: u64,
    sender: MessageSender,
)
    requires
        exists|m: &mut RouteStore|
            *m == before && *final(m) == after && #[trigger] call_ensures(
                RouteStore::update_slot,
                (m, id, sender),
                (),
            ),
    ensures
        rest_kept(before@, after@, Some(id), None),
        after@.slots.contains_key(id) == before@.slots.contains_key(id),
        before@.slots.contains_key(id) ==> after@.slots[id].sender == Some(sender)
            && after@.slots[id].version != before@.slots[id].version,
{
}

/// Removing a slot changes this slot alone, if there is one.
pub proof fn law_taking_a_channel_out(before: RouteStore, after: RouteStore, id: u64)
    requires
        exists|m: &mut RouteStore|
            *m == before && *final(m) == after && #[trigger] call_ensures(
                RouteStore::remove_slot,
                (m, id),
                (),
            ),
    ensures
        rest_kept(before@, after@, Some(id), None),
        after@.slots.contains_key(id) == before@.slots.contains_key(id),
        before@.slots.contains_key(id) ==> after@.slots[id].sender is None
            && after@.slots[id].version != before@.slots[id].version,
{
}

/// Shutting a group down ends it, and changes nothing but the group and its slot. A dispatcher
/// is to be stopped exactly if it ran.
pub proof fn law_shutting_down(before: RouteStore, after: RouteStore, id: u64, r: bool)
    requires
        exists|m: &mut RouteStore|
            *m == before && *final(m) == after && #[trigger] call_ensures(
                RouteStore::shutdown_group,
                (m, id),
                r,
            ),
    ensures
        r <==> before@.groups.contains_key(id) && before@.groups[id].dispatcher_running,
        ended(before@, after@, RouteTarget::LoadBalanced(id)),
        rest_kept(
            before@,
            after@,
            slot_behind(before@, RouteTarget::LoadBalanced(id)),
            Some(id),
        ),
        !before@.groups.contains_key(id) ==> after@ == before@,
{
}

/// A consumer that joins a group is counted in it, and nothing else changes.
pub proof fn law_joining(
    before: RouteStore,
    after: RouteStore,
    id: u64,
    r: Option<Arc<RequestSender>>,
)
    requires
        exists|m: &mut RouteStore|
            *m == before && *final(m) == after && #[trigger] call_ensures(
                RouteStore::subscribe_group,
                (m, id),
                r,
            ),
    ensures
        rest_kept(before@, after@, None, Some(id)),
        match r {
            Some(handle) => {
                &&& before@.groups.contains_key(id) && after@.groups.contains_key(id)
                &&& handle == before@.groups[id].req_tx
                &&& same_but_consumers(before@.groups[id], after@.groups[id])
                &&& before@.groups[id].active_consumers < usize::MAX
                    ==> after@.groups[id].active_consumers == before@.groups[id].active_consumers
                    + 1
            },
            None => !before@.groups.contains_key(id) && after@ == before@,
        },
{
}

/// A consumer that leaves a group with others in it is no longer counted, and nothing else
/// changes; the last one ends the group.
pub proof fn law_leaving(before: RouteStore, after: RouteStore, id: u64, r: bool)
    requires
        exists|m: &mut RouteStore|
            *m == before && *final(m) == after && #[trigger] call_ensures(
                RouteStore::remove_consumer,
                (m, id),
                r,
            ),
    ensures
        !before@.groups.contains_key(id) ==> after@ == before@ && !r,
        before@.groups.contains_key(id) && before@.groups[id].active_consumers > 1 ==> !r
            && one_less(before@, after@, id),
        before@.groups.contains_key(id) && before@.groups[id].active_consumers == 1 ==> {
            &&& r <==> before@.groups[id].dispatcher_running
            &&& ended(before@, after@, RouteTarget::LoadBalanced(id))
            &&& after@.groups[id].active_consumers == 0
            &&& rest_kept(before@, after@, Some(before@.groups[id].slot), Some(id))
        },
{
}

/// Forgetting a slot takes out this slot and nothing else.
pub proof fn law_forgetting_a_slot(before: RouteStore, after: RouteStore, id: u64)
    requires
        exists|m: &mut RouteStore|
            *m == before && *final(m) == after && #[trigger] call_ensures(
                RouteStore::release_slot,
                (m, id),
                (),
            ),
    ensures
        !after@.slots.contains_key(id),
        rest_kept(before@, after@, Some(id), None),
{
}

/// Forgetting a group takes out the group and its slot and nothing else. A dispatcher is to be
/// stopped exactly if it ran.
pub proof fn law_forgetting_a_group(before: RouteStore, after: RouteStore, id: u64, r: bool)
    requires
        exists|m: &mut RouteStore|
            *m == before && *final(m) == after && #[trigger] call_ensures(
                RouteStore::release_group,
                (m, id),
                r,
            ),
    ensures
        r <==> before@.groups.contains_key(id) && before@.groups[id].dispatcher_running,
        !after@.groups.contains_key(id),
        before@.groups.contains_key(id) ==> !after@.slots.contains_key(before@.groups[id].slot),
        rest_kept(
            before@,
            after@,
            slot_behind(before@, RouteTarget::LoadBalanced(id)),
            Some(id),
        ),
{
}

// ---------------------------------------------------------------------------------------
// Targets
// ---------------------------------------------------------------------------------------

/// The slot of a target is itself, or that of its group.
pub proof fn law_slot_of_a_target(target: &RouteTarget, store: &RouteStore, r: Option<u64>)
    requires
        call_ensures(RouteTarget::slot, (target, store), r),
    ensures
        r == slot_behind(store@, *target),
{
}

/// Taking a subscription from a target does nothing unless the slot is that of the target. Of
/// several consumers one leaves, and the route is to stay; otherwise the target has ended, and
/// the route is to go.
pub proof fn law_taking_a_subscription(
    target: &RouteTarget,
    before: RouteStore,
    after: RouteStore,
    slot: u64,
    r: bool,
)
    requires
        exists|m: &mut RouteStore|
            *m == before && *final(m) == after && #[trigger] call_ensures(
                RouteTarget::remove_slot,
                (target, m, slot),
                r,
            ),
    ensures
        if slot_behind(before@, *target) != Some(slot) {
            !r && after@ == before@
        } else {
            match *target {
                RouteTarget::LoadBalanced(id) if before@.groups[id].active_consumers > 1 => !r
                    && one_less(before@, after@, id),
                _ => r && ended(before@, after@, *target) && rest_kept(
                    before@,
                    after@,
                    Some(slot),
                    group_behind(*target),
                ),
            }
        },
{
}

/// Only a group that is there has a request channel, and who gets a handle on it is counted.
pub proof fn law_asking_for_the_requests(
    target: &RouteTarget,
    before: RouteStore,
    after: RouteStore,
    r: Option<Arc<RequestSender>>,
)
    requires
        exists|m: &mut RouteStore|
            *m == before && *final(m) == after && #[trigger] call_ensures(
                RouteTarget::request_sender,
                (target, m),
                r,
            ),
    ensures
        match r {
            Some(handle) => {
                &&& *target matches RouteTarget::LoadBalanced(id)
                &&& before@.groups.contains_key(id) && after@.groups.contains_key(id)
                &&& handle == before@.groups[id].req_tx
                &&& same_but_consumers(before@.groups[id], after@.groups[id])
                &&& before@.groups[id].active_consumers < usize::MAX
                    ==> after@.groups[id].active_consumers == before@.groups[id].active_consumers
                    + 1
                &&& rest_kept(before@, after@, None, Some(id))
            },
            None => {
                &&& after@ == before@
                &&& match *target {
                    RouteTarget::LoadBalanced(id) => !before@.groups.contains_key(id),
                    RouteTarget::Single(_) => true,
                }
            },
        },
{
}

} // verus!
