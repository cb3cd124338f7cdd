//! What the operations of a registry do, in terms of what is registered and who receives.

use iradix::sync::Radix;
use vstd::prelude::*;
use vstd::utf8::{encode_utf8, encode_utf8_valid_utf8};

use super::error::RegistryError;
use super::laws::{
    law_lookup_finds_the_recipient, law_refused_means_second_recipient, lemma_bind_entry,
    lemma_free_exact, lemma_free_wildcard, lemma_leads_by_entry, lemma_unbind_entry,
    lemma_wildcard_entry, reaches, registrable,
};
use super::pattern::{
    comparison, covers, has_star, lemma_pattern_fault, overlap, segments,
};
use super::routing::RouteTarget;
use super::radix::radix_entries;
use super::segments::{
    law_conflict_means_common_address, lex_le, prefix_candidate, static_prefix,
};
use super::store::Store;
use super::table::{
    candidate_in, covered_under, find_prefix_match, match_under, matches_key, single_match,
    static_prefix_bytes, LookupResult, RegistryInner, Routes,
};
use super::{LocalRegistry, RegisterResult, RegistryView};
use crate::broker_core::transport::channel::MessageSender;
use crate::text::bytes_text;

verus! {

/// Whether some concrete address would go both to who is registered under `x` and to who is
/// registered under `y`.
pub open spec fn share_an_address(x: Seq<u8>, y: Seq<u8>) -> bool {
    exists|a: Seq<u8>| !has_star(a) && #[trigger] reaches(x, a) && #[trigger] reaches(y, a)
}

/// Whether somebody is registered who would have to share an address with `address`.
pub open spec fn taken(registry: RegistryView, address: Seq<u8>) -> bool {
    exists|x: Seq<u8>| #[trigger]
        registry.routes.entry(x) is Some && share_an_address(x, address)
}

/// Whether `after` has the same entries as `before`, but for this one.
pub open spec fn only_entry_changed(
    before: Routes,
    after: Routes,
    address: Seq<u8>,
    entry: Option<RouteTarget>,
) -> bool {
    forall|x: Seq<u8>| #[trigger]
        after.entry(x) == (if x == address {
            entry
        } else {
            before.entry(x)
        })
}

/// Whether two stores hold the same, but for these slots and groups and the number for what is
/// new.
pub open spec fn others_kept(
    before: Store,
    after: Store,
    slot: Option<u64>,
    group: Option<u64>,
) -> bool {
    &&& forall|id: u64|
        #![trigger after.slots.contains_key(id)]
        #![trigger before.slots.contains_key(id)]
        Some(id) != slot ==> {
            &&& after.slots.contains_key(id) == before.slots.contains_key(id)
            &&& before.slots.contains_key(id) ==> after.slots[id] == before.slots[id]
        }
    &&& forall|id: u64|
        #![trigger after.groups.contains_key(id)]
        #![trigger before.groups.contains_key(id)]
        Some(id) != group ==> {
            &&& after.groups.contains_key(id) == before.groups.contains_key(id)
            &&& before.groups.contains_key(id) ==> after.groups[id] == before.groups[id]
        }
}

/// Whether two stores hold the same, but for these slots and groups.
pub open spec fn rest_kept(
    before: Store,
    after: Store,
    slot: Option<u64>,
    group: Option<u64>,
) -> bool {
    after.next_id == before.next_id && others_kept(before, after, slot, group)
}

// ---------------------------------------------------------------------------------------
// Looking up
// ---------------------------------------------------------------------------------------

/// Looking an address up finds the target of whoever is registered under it or under a pattern
/// that covers it, and nothing exactly if nobody is.
pub proof fn law_lookup(registry: &LocalRegistry, address: &str, r: Option<RouteTarget>)
    requires
        registry@.inv(),
        call_ensures(LocalRegistry::lookup, (registry, address), r),
    ensures
        match r {
            Some(target) => exists|x: Seq<u8>| #[trigger]
                registry@.routes.entry(x) == Some(target) && reaches(x, encode_utf8(address@)),
            None => forall|x: Seq<u8>| #[trigger]
                registry@.routes.entry(x) is Some ==> !reaches(x, encode_utf8(address@)),
        },
{
    let a = encode_utf8(address@);
    let routes = registry@.routes;
    law_lookup_finds_the_recipient(routes, a);
    match r {
        Some(target) => {
            lemma_leads_by_entry(routes, a, target);
        },
        None => {
            assert forall|x: Seq<u8>| #[trigger] routes.entry(x) is Some implies !reaches(x, a) by {
                lemma_leads_by_entry(routes, a, routes.entry(x)->0);
            }
        },
    }
}

/// Whether an address has a route is whether looking it up finds a target, and a route of its
/// own is one under exactly that address.
pub proof fn law_has_route(
    registry: &LocalRegistry,
    address: &str,
    found: Option<RouteTarget>,
    has_route: bool,
    has_local: bool,
)
    requires
        registry@.inv(),
        call_ensures(LocalRegistry::lookup, (registry, address), found),
        call_ensures(LocalRegistry::has_route, (registry, address), has_route),
        call_ensures(LocalRegistry::has_local, (registry, address), has_local),
    ensures
        has_route <==> found is Some,
        has_local ==> has_route && found == registry@.routes.entry(encode_utf8(address@)),
        !has_star(encode_utf8(address@)) ==> (has_local <==> registry@.routes.entry(
            encode_utf8(address@),
        ) is Some),
{
}

// ---------------------------------------------------------------------------------------
// Registering
// ---------------------------------------------------------------------------------------

/// Whoever is in conflict shares an address.
proof fn lemma_blocks(routes: Routes, k: Seq<u8>, address: Seq<u8>)
    requires
        routes.inv(),
        registrable(address),
        routes.blocks(k, address),
        routes.entry(address) is None,
    ensures
        routes.entry(k) is Some,
        k != address,
        share_an_address(k, address),
{
    if !has_star(k) {
        assert(reaches(k, k) && reaches(address, k));
    } else {
        if routes.prefix.contains_key(k) {
            lemma_wildcard_entry(routes, k, routes.prefix[k]);
        } else {
            let i = choose|i: int|
                #![trigger routes.singles[i]]
                0 <= i < routes.singles.len() && routes.singles[i].0 == k;
            assert(routes.singles.contains(routes.singles[i]));
            lemma_wildcard_entry(routes, k, routes.singles[i].1);
        }
        if has_star(address) {
            law_conflict_means_common_address(k, address);
            let a = choose|a: Seq<u8>|
                #![trigger segments(a)]
                !has_star(a) && covers(segments(k), segments(a)) && covers(
                    segments(address),
                    segments(a),
                );
            assert(reaches(k, a) && reaches(address, a));
        } else {
            assert(reaches(k, address) && reaches(address, address));
        }
    }
}

/// Whether a registration is refused is whether somebody would have to share an address.
proof fn lemma_taken(registry: RegistryView, address: Seq<u8>)
    requires
        registry.inv(),
        registrable(address),
    ensures
        !(registry.routes.obstacle(address) is Free) <==> taken(registry, address),
{
    let routes = registry.routes;
    law_refused_means_second_recipient(routes, address);
    if taken(registry, address) {
        let x = choose|x: Seq<u8>| #[trigger]
            routes.entry(x) is Some && share_an_address(x, address);
        let a = choose|a: Seq<u8>| !has_star(a) && #[trigger] reaches(x, a) && #[trigger] reaches(
            address,
            a,
        );
        assert(routes.entry(x) is Some && !has_star(a) && reaches(x, a) && reaches(address, a));
    }
    if !(routes.obstacle(address) is Free) {
        let (x, a) = choose|x: Seq<u8>, a: Seq<u8>|
            #![trigger routes.entry(x), reaches(address, a)]
            routes.entry(x) is Some && !has_star(a) && reaches(x, a) && reaches(address, a);
        assert(share_an_address(x, address));
    }
}

/// Why `e` refuses `address`: the address is a pattern that breaks a rule; or somebody is
/// registered under the very same address; or under another one, which is named, with which
/// it would share an address.
pub open spec fn refused_for(
    registry: RegistryView,
    address: Seq<char>,
    e: RegistryError,
) -> bool {
    let bytes = encode_utf8(address);
    if !registrable(bytes) {
        e is InvalidWildcardFormat
    } else if registry.routes.entry(bytes) is Some {
        e matches RegistryError::AddressAlreadyOccupied(text) && text@ == address
    } else if has_star(bytes) {
        e matches RegistryError::WildcardConflict(text, other) && text@ == address
            && exists|x: Seq<u8>| #[trigger]
            registry.routes.entry(x) is Some && x != bytes && share_an_address(x, bytes) && other@
                == bytes_text(x)
    } else {
        e matches RegistryError::ConflictsWithWildcard(text, other) && text@ == address
            && exists|x: Seq<u8>| #[trigger]
            registry.routes.entry(x) is Some && x != bytes && share_an_address(x, bytes) && other@
                == bytes_text(x)
    }
}

/// What the verdict on an address means for what is registered.
pub proof fn lemma_verdict(registry: RegistryView, address: Seq<char>)
    requires
        registry.inv(),
        registry.conflict_is_registered(encode_utf8(address)),
    ensures
        ({
            let bytes = encode_utf8(address);
            let verdict = registry.verdict(bytes);
            &&& verdict is Free <==> registrable(bytes) && !taken(registry, bytes)
            &&& verdict is Invalid <==> !registrable(bytes)
            &&& verdict is Occupied <==> registrable(bytes) && registry.routes.entry(bytes) is Some
            &&& verdict is Occupied ==> registry.routes.entry(bytes) == Some(verdict->Occupied_0)
            &&& verdict is Free ==> registry.routes.entry(bytes) is None
            &&& verdict is Conflict ==> {
                &&& registry.routes.entry(verdict->Conflict_0) is Some
                &&& verdict->Conflict_0 != bytes
                &&& share_an_address(verdict->Conflict_0, bytes)
            }
        }),
{
    let bytes = encode_utf8(address);
    let routes = registry.routes;
    encode_utf8_valid_utf8(address);
    lemma_pattern_fault(bytes);
    if registrable(bytes) {
        lemma_taken(registry, bytes);
        if registry.verdict(bytes) is Free {
            if has_star(bytes) {
                lemma_free_wildcard(routes, bytes);
            } else {
                lemma_free_exact(routes, bytes);
            }
        }
        if registry.verdict(bytes) is Conflict {
            lemma_blocks(routes, registry.verdict(bytes)->Conflict_0, bytes);
        }
    }
}

/// A registration succeeds exactly if the address is well formed and nobody who is registered
/// would have to share an address with it. Then it is the one new entry; otherwise nothing
/// changes, and the error says why.
pub proof fn law_register(
    before: LocalRegistry,
    after: LocalRegistry,
    address: String,
    target: RouteTarget,
    r: Result<(), RegistryError>,
)
    requires
        before@.inv(),
        exists|m: &mut LocalRegistry|
            *m == before && *final(m) == after && #[trigger] call_ensures(
                LocalRegistry::register,
                (m, address, target),
                r,
            ),
    ensures
        r is Ok <==> registrable(encode_utf8(address@)) && !taken(before@, encode_utf8(address@)),
        r is Ok ==> only_entry_changed(
            before@.routes,
            after@.routes,
            encode_utf8(address@),
            Some(target),
        ),
        after@.store == before@.store,
        r matches Err(e) ==> after@ == before@ && refused_for(before@, address@, e),
{
    let bytes = encode_utf8(address@);
    lemma_verdict(before@, address@);
    if r is Ok {
        assert forall|x: Seq<u8>| #[trigger] after@.routes.entry(x) == (if x == bytes {
            Some(target)
        } else {
            before@.routes.entry(x)
        }) by {
            lemma_bind_entry(before@.routes, bytes, target, x);
        }
    }
}

/// To get the existing target or register a new one gives the target of exactly this address
/// if there is one, and changes nothing then; otherwise it is a registration of what the
/// factory makes, which is asked only if the address is free.
pub proof fn law_get_existing_or_register<F: FnOnce() -> Result<RouteTarget, RegistryError>>(
    before: LocalRegistry,
    after: LocalRegistry,
    address: String,
    factory: F,
    r: Result<RegisterResult, RegistryError>,
)
    requires
        before@.inv(),
        exists|m: &mut LocalRegistry|
            *m == before && *final(m) == after && #[trigger] call_ensures(
                LocalRegistry::get_existing_or_register::<F>,
                (m, address, factory),
                r,
            ),
    ensures
        after@.store == before@.store,
        match r {
            Ok(RegisterResult::AlreadyExists(target)) => {
                &&& before@.routes.entry(encode_utf8(address@)) == Some(target)
                &&& after@ == before@
            },
            Ok(RegisterResult::Registered(target)) => {
                &&& registrable(encode_utf8(address@)) && !taken(before@, encode_utf8(address@))
                &&& call_ensures(factory, (), Ok::<RouteTarget, RegistryError>(target))
                &&& only_entry_changed(
                    before@.routes,
                    after@.routes,
                    encode_utf8(address@),
                    Some(target),
                )
            },
            Err(e) => {
                &&& after@ == before@
                &&& before@.routes.entry(encode_utf8(address@)) is Some ==> !registrable(
                    encode_utf8(address@),
                )
                &&& if registrable(encode_utf8(address@)) && !taken(
                    before@,
                    encode_utf8(address@),
                ) {
                    call_ensures(factory, (), Err::<RouteTarget, RegistryError>(e))
                } else {
                    refused_for(before@, address@, e)
                }
            },
        },
{
    let bytes = encode_utf8(address@);
    lemma_verdict(before@, address@);
    if let Ok(RegisterResult::Registered(target)) = r {
        assert forall|x: Seq<u8>| #[trigger] after@.routes.entry(x) == (if x == bytes {
            Some(target)
        } else {
            before@.routes.entry(x)
        }) by {
            lemma_bind_entry(before@.routes, bytes, target, x);
        }
    }
}

// ---------------------------------------------------------------------------------------
// Unregistering
// ---------------------------------------------------------------------------------------

/// Whether the subscription behind a target is gone: there is no channel to it, its slot is
/// removed or its group shut down, and its version is another one.
pub open spec fn ended(before: Store, after: Store, target: RouteTarget) -> bool {
    &&& after.sender_of(target) is None
    &&& match target {
        RouteTarget::Single(slot) => before.slots.contains_key(slot)
            ==> after.slots.contains_key(slot) && after.slots[slot].sender is None
            && after.slots[slot].version != before.slots[slot].version,
        RouteTarget::LoadBalanced(id) => before.groups.contains_key(id) ==> {
            &&& after.groups.contains_key(id)
            &&& !after.groups[id].dispatcher_running
            &&& after.groups[id].version != before.groups[id].version
            &&& after.groups[id].slot == before.groups[id].slot
            &&& after.groups[id].req_tx == before.groups[id].req_tx
        },
    }
}

/// Whether one consumer less is in a group, and nothing else has changed in the store.
pub open spec fn one_less(before: Store, after: Store, id: u64) -> bool {
    &&& rest_kept(before, after, None, Some(id))
    &&& after.groups.contains_key(id)
    &&& after.groups[id].active_consumers == before.groups[id].active_consumers - 1
    &&& after.groups[id].slot == before.groups[id].slot
    &&& after.groups[id].version == before.groups[id].version
    &&& after.groups[id].dispatcher_running == before.groups[id].dispatcher_running
    &&& after.groups[id].req_tx == before.groups[id].req_tx
    &&& after.groups[id].address == before.groups[id].address
}

/// The slot and the group that belong to a target.
pub open spec fn slot_behind(store: Store, target: RouteTarget) -> Option<u64> {
    match target {
        RouteTarget::Single(slot) => Some(slot),
        RouteTarget::LoadBalanced(id) => if store.groups.contains_key(id) {
            Some(store.groups[id].slot)
        } else {
            None
        },
    }
}

/// The group that a target is.
pub open spec fn group_behind(target: RouteTarget) -> Option<u64> {
    match target {
        RouteTarget::Single(_) => None,
        RouteTarget::LoadBalanced(id) => Some(id),
    }
}

/// What has changed once the subscription with this slot was taken from `address`: nothing,
/// unless somebody is registered under exactly this address with exactly this slot. From a
/// group with several consumers one leaves, and every address goes where it went; otherwise the
/// entry is taken out, and no other, and what it led to has ended.
pub open spec fn subscription_taken(
    before: RegistryView,
    after: RegistryView,
    address: Seq<u8>,
    slot: u64,
) -> bool {
    match before.routes.entry(address) {
        None => after == before,
        Some(target) => if slot_behind(before.store, target) != Some(slot) {
            after == before
        } else {
            match target {
                RouteTarget::LoadBalanced(id) if before.store.groups[id].active_consumers > 1 => {
                    &&& after.routes == before.routes
                    &&& one_less(before.store, after.store, id)
                },
                _ => {
                    &&& only_entry_changed(before.routes, after.routes, address, None)
                    &&& ended(before.store, after.store, target)
                    &&& rest_kept(before.store, after.store, Some(slot), group_behind(target))
                },
            }
        },
    }
}

proof fn lemma_unbound(routes: Routes, address: Seq<u8>)
    requires
        routes.inv(),
    ensures
        only_entry_changed(routes, routes.unbind(address), address, None),
{
    assert forall|x: Seq<u8>| #[trigger] routes.unbind(address).entry(x) == (if x == address {
        None
    } else {
        routes.entry(x)
    }) by {
        lemma_unbind_entry(routes, address, x);
    }
}

/// What taking a subscription from an address comes to.
pub proof fn lemma_unregistered(before: RegistryView, address: Seq<u8>, slot: u64)
    requires
        before.inv(),
    ensures
        subscription_taken(before, before.unregistered(address, slot), address, slot),
{
    lemma_unbound(before.routes, address);
}

/// What taking out the route to a group comes to.
pub proof fn lemma_group_unbound(before: RegistryView, address: Seq<u8>, id: u64)
    requires
        before.inv(),
    ensures
        ({
            let after = before.group_unbound(address, id);
            &&& after.store == before.store
            &&& if before.routes.entry(address) == Some(RouteTarget::LoadBalanced(id)) {
                only_entry_changed(before.routes, after.routes, address, None)
            } else {
                after.routes == before.routes
            }
        }),
{
    lemma_unbound(before.routes, address);
}

/// Unregistering never fails, and takes the subscription with this slot from the address.
pub proof fn law_unregister(
    before: LocalRegistry,
    after: LocalRegistry,
    address: &str,
    slot: u64,
    r: Result<(), RegistryError>,
)
    requires
        before@.inv(),
        exists|m: &mut LocalRegistry|
            *m == before && *final(m) == after && #[trigger] call_ensures(
                LocalRegistry::unregister,
                (m, address, slot),
                r,
            ),
    ensures
        r is Ok,
        subscription_taken(before@, after@, encode_utf8(address@), slot),
{
    lemma_unregistered(before@, encode_utf8(address@), slot);
}

/// Giving an address free takes the entry under exactly this address out, and no other, and
/// ends what it led to, whoever shares it. Nothing happens if there is none.
pub proof fn law_unregister_address(
    before: LocalRegistry,
    after: LocalRegistry,
    address: &str,
    r: Result<(), RegistryError>,
)
    requires
        before@.inv(),
        exists|m: &mut LocalRegistry|
            *m == before && *final(m) == after && #[trigger] call_ensures(
                LocalRegistry::unregister_address,
                (m, address),
                r,
            ),
    ensures
        r is Ok,
        match before@.routes.entry(encode_utf8(address@)) {
            None => after@ == before@,
            Some(target) => {
                &&& only_entry_changed(before@.routes, after@.routes, encode_utf8(address@), None)
                &&& ended(before@.store, after@.store, target)
                &&& rest_kept(
                    before@.store,
                    after@.store,
                    slot_behind(before@.store, target),
                    group_behind(target),
                )
            },
        },
{
    lemma_unbound(before@.routes, encode_utf8(address@));
}

/// When the dispatcher of a group has stopped, its slot is removed. If the address leads to
/// the slot, the entry is taken out, and no other, and the group is shut down.
pub proof fn law_dispatcher_stopped(
    before: LocalRegistry,
    after: LocalRegistry,
    address: &str,
    slot: u64,
)
    requires
        before@.inv(),
        exists|m: &mut LocalRegistry|
            *m == before && *final(m) == after && #[trigger] call_ensures(
                LocalRegistry::dispatcher_stopped,
                (m, address, slot),
                (),
            ),
    ensures
        after@.store.sender_of(RouteTarget::Single(slot)) is None,
        match before@.routes.entry(encode_utf8(address@)) {
            Some(target) if slot_behind(before@.store, target) == Some(slot) => {
                &&& only_entry_changed(before@.routes, after@.routes, encode_utf8(address@), None)
                &&& after@.store.sender_of(target) is None
                &&& target matches RouteTarget::LoadBalanced(id)
                    ==> !after@.store.groups[id].dispatcher_running
                &&& rest_kept(before@.store, after@.store, Some(slot), group_behind(target))
            },
            _ => {
                &&& after@.routes == before@.routes
                &&& rest_kept(before@.store, after@.store, Some(slot), None)
            },
        },
{
    lemma_unbound(before@.routes, encode_utf8(address@));
}

// ---------------------------------------------------------------------------------------
// Other operations
// ---------------------------------------------------------------------------------------

/// In a new registry nobody is registered, and it holds neither slots nor groups.
pub proof fn law_new_registry(r: LocalRegistry)
    requires
        call_ensures(LocalRegistry::new, (), r),
    ensures
        r@.inv(),
        forall|x: Seq<u8>| (#[trigger] r@.routes.entry(x)) is None,
        forall|id: u64| !(#[trigger] r@.store.slots.contains_key(id)),
        forall|id: u64| !(#[trigger] r@.store.groups.contains_key(id)),
{
}

/// What is found for an address is the target that is registered under exactly it, or that it
/// is free, or why it cannot be registered.
pub proof fn law_find_existing(
    registry: &LocalRegistry,
    address: &str,
    r: Result<Option<RouteTarget>, RegistryError>,
)
    requires
        registry@.inv(),
        call_ensures(LocalRegistry::find_existing, (registry, address), r),
    ensures
        match r {
            Ok(Some(target)) => registrable(encode_utf8(address@)) && registry@.routes.entry(
                encode_utf8(address@),
            ) == Some(target),
            Ok(None) => registrable(encode_utf8(address@)) && !taken(
                registry@,
                encode_utf8(address@),
            ),
            Err(e) => refused_for(registry@, address@, e) && !(e is AddressAlreadyOccupied),
        },
{
    lemma_verdict(registry@, address@);
}

/// Registering a channel is registering a new exclusive target whose channel it is.
pub proof fn law_register_channel(
    before: LocalRegistry,
    after: LocalRegistry,
    address: String,
    channel: MessageSender,
    r: Result<u64, RegistryError>,
)
    requires
        before@.inv(),
        before@.store.next_id < u64::MAX,
        exists|m: &mut LocalRegistry|
            *m == before && *final(m) == after && #[trigger] call_ensures(
                LocalRegistry::register_channel,
                (m, address, channel),
                r,
            ),
    ensures
        r is Ok <==> registrable(encode_utf8(address@)) && !taken(before@, encode_utf8(address@)),
        match r {
            Ok(slot) => {
                &&& only_entry_changed(
                    before@.routes,
                    after@.routes,
                    encode_utf8(address@),
                    Some(RouteTarget::Single(slot)),
                )
                &&& !before@.store.slots.contains_key(slot)
                &&& after@.store.slots.contains_key(slot)
                &&& after@.store.slots[slot].sender == Some(channel)
                &&& others_kept(before@.store, after@.store, Some(slot), None)
            },
            Err(e) => after@ == before@ && refused_for(before@, address@, e),
        },
{
    let bytes = encode_utf8(address@);
    lemma_verdict(before@, address@);
    if let Ok(slot) = r {
        assert forall|x: Seq<u8>| #[trigger] after@.routes.entry(x) == (if x == bytes {
            Some(RouteTarget::Single(slot))
        } else {
            before@.routes.entry(x)
        }) by {
            lemma_bind_entry(before@.routes, bytes, RouteTarget::Single(slot), x);
        }
    }
}

/// Taking out the route to a group takes out the entry under exactly this address if it leads
/// to exactly this group, and nothing else.
pub proof fn law_unbinding_a_group(
    before: LocalRegistry,
    after: LocalRegistry,
    address: &str,
    id: u64,
)
    requires
        before@.inv(),
        exists|m: &mut LocalRegistry|
            *m == before && *final(m) == after && #[trigger] call_ensures(
                LocalRegistry::unbind_group,
                (m, address, id),
                (),
            ),
    ensures
        after@.store == before@.store,
        if before@.routes.entry(encode_utf8(address@)) == Some(RouteTarget::LoadBalanced(id)) {
            only_entry_changed(before@.routes, after@.routes, encode_utf8(address@), None)
        } else {
            after@.routes == before@.routes
        },
{
    lemma_group_unbound(before@, encode_utf8(address@), id);
}

// ---------------------------------------------------------------------------------------
// Which conflict is reported
// ---------------------------------------------------------------------------------------

/// The static prefix of a pattern is what comes before its first `*`.
pub proof fn law_static_prefix(pattern: &[u8], r: &[u8])
    requires
        call_ensures(static_prefix_bytes, (pattern,), r),
    ensures
        r@.is_prefix_of(pattern@),
        !r@.contains('*' as u8),
        r@.len() < pattern@.len() ==> pattern@[r@.len() as int] == '*' as u8,
{
    lemma_static_prefix_is_prefix(pattern@);
}

proof fn lemma_static_prefix_is_prefix(s: Seq<u8>)
    ensures
        static_prefix(s).is_prefix_of(s),
        !static_prefix(s).contains('*' as u8),
        static_prefix(s).len() < s.len() ==> s[static_prefix(s).len() as int] == '*' as u8,
    decreases s.len(),
{
    if s.len() == 0 || s[0] == '*' as u8 {
        assert(Seq::<u8>::empty() =~= s.subrange(0, 0));
    } else {
        let t = s.skip(1);
        lemma_static_prefix_is_prefix(t);
        let p = static_prefix(t);
        assert(p =~= t.subrange(0, p.len() as int));
        assert(static_prefix(s) =~= s.subrange(0, p.len() as int + 1));
        assert forall|x: u8| static_prefix(s).contains(x) implies x == s[0] || p.contains(x) by {
            let i = choose|i: int| 0 <= i < static_prefix(s).len() && static_prefix(s)[i] == x;
            if i > 0 {
                assert(p[i - 1] == x);
            }
        }
    }
}

/// Of the patterns and addresses that are in conflict with a new pattern, one that ends in `**`
/// is reported before any other pattern, the other patterns in the order in which they were
/// registered, and an exact address only if no pattern is in conflict.
pub proof fn law_reported_conflict(inner: &RegistryInner, pattern: &[u8], k: Vec<u8>)
    requires
        inner@.well_formed(),
        call_ensures(RegistryInner::get_wildcard, (inner, pattern), LookupResult::Conflict(k)),
    ensures
        inner@.blocks(k@, pattern@),
        (exists|p: Seq<u8>| #[trigger]
            inner@.prefix.contains_key(p) && overlap(segments(p), segments(pattern@)))
            ==> inner@.prefix.contains_key(k@),
        !(exists|p: Seq<u8>| #[trigger]
            inner@.prefix.contains_key(p) && overlap(segments(p), segments(pattern@))) && (exists|
            i: int,
        |
            #![trigger inner@.singles[i]]
            0 <= i < inner@.singles.len() && overlap(
                segments(inner@.singles[i].0),
                segments(pattern@),
            )) ==> exists|i: int|
            #![trigger inner@.singles[i]]
            0 <= i < inner@.singles.len() && inner@.singles[i].0 == k@ && forall|j: int|
                #![trigger inner@.singles[j]]
                0 <= j < i ==> !overlap(segments(inner@.singles[j].0), segments(pattern@)),
{
    let routes = inner@;
    lemma_earliest(routes.singles, pattern@, true);
    if exists|p: Seq<u8>| #[trigger]
        routes.prefix.contains_key(p) && overlap(segments(p), segments(pattern@)) {
        let p = choose|p: Seq<u8>| #[trigger]
            routes.prefix.contains_key(p) && overlap(segments(p), segments(pattern@));
        assert(routes.prefix.dom().contains(p) && matches_key(p, pattern@, true));
    }
    if !(exists|p: Seq<u8>| #[trigger]
        routes.prefix.contains_key(p) && overlap(segments(p), segments(pattern@))) {
        assert forall|p: Seq<u8>| #[trigger] routes.prefix.dom().contains(p) implies !matches_key(
            p,
            pattern@,
            true,
        ) by {
            assert(!(routes.prefix.contains_key(p) && overlap(segments(p), segments(pattern@))));
        }
    }
}

/// The single wildcard that is found is the earliest that matches.
proof fn lemma_earliest(singles: Seq<(Seq<u8>, RouteTarget)>, target: Seq<u8>, both: bool)
    ensures
        match single_match(singles, target, both) {
            Some(found) => exists|i: int|
                #![trigger singles[i]]
                0 <= i < singles.len() && singles[i] == found && matches_key(
                    singles[i].0,
                    target,
                    both,
                ) && forall|j: int|
                    #![trigger singles[j]]
                    0 <= j < i ==> !matches_key(singles[j].0, target, both),
            None => forall|j: int|
                #![trigger singles[j]]
                0 <= j < singles.len() ==> !matches_key(singles[j].0, target, both),
        },
    decreases singles.len(),
{
    if singles.len() > 0 && !matches_key(singles[0].0, target, both) {
        let tail = singles.skip(1);
        lemma_earliest(tail, target, both);
        match single_match(tail, target, both) {
            Some(found) => {
                let i = choose|i: int|
                    #![trigger tail[i]]
                    0 <= i < tail.len() && tail[i] == found && matches_key(
                        tail[i].0,
                        target,
                        both,
                    ) && forall|j: int|
                        #![trigger tail[j]]
                        0 <= j < i ==> !matches_key(tail[j].0, target, both);
                assert(singles[i + 1] == found);
                assert forall|j: int| #![trigger singles[j]] 0 <= j < i + 1 implies !matches_key(
                    singles[j].0,
                    target,
                    both,
                ) by {
                    if j > 0 {
                        assert(singles[j] == tail[j - 1]);
                    }
                }
            },
            None => {
                assert forall|j: int|
                    #![trigger singles[j]]
                    0 <= j < singles.len() implies !matches_key(singles[j].0, target, both) by {
                    if j > 0 {
                        assert(singles[j] == tail[j - 1]);
                    }
                }
            },
        }
    }
}

/// Of the patterns that end in `**` and match, the shortest one that is made of leading
/// segments of the target is found. If there is none, the least in byte order is, of those
/// that begin with the static prefix of the target, if there are any, or of all.
pub proof fn law_first_prefix_wildcard(
    tree: &Radix<u8, RouteTarget>,
    target: &[u8],
    both: bool,
    prefix: &[u8],
    k: Vec<u8>,
    t: RouteTarget,
)
    requires
        call_ensures(static_prefix_bytes, (target,), prefix),
        call_ensures(find_prefix_match, (tree, target, both), Some((k, t))),
    ensures
        radix_entries(*tree).contains_key(k@) && radix_entries(*tree)[k@] == t,
        ({
            let made = |e: int| target@.take(e) + seq![':' as u8, '*' as u8, '*' as u8];
            let ends = |e: int|
                0 <= e <= target@.len() && (e == target@.len() || target@[e] == ':' as u8);
            let keys = radix_entries(*tree).dom();
            &&& (exists|e: int| ends(e) && keys.contains(#[trigger] made(e))) ==> exists|e: int|
                ends(e) && k@ == #[trigger] made(e) && forall|d: int|
                    d < e && ends(d) ==> !keys.contains(#[trigger] made(d))
            &&& !(exists|e: int| ends(e) && keys.contains(#[trigger] made(e))) ==> forall|j: Seq<
                u8,
            >| #[trigger]
                keys.contains(j) && comparison(segments(j), segments(target@), both) && (
                prefix@.is_prefix_of(k@) ==> prefix@.is_prefix_of(j)) ==> lex_le(k@, j)
            &&& !(exists|e: int| ends(e) && keys.contains(#[trigger] made(e))) && (exists|
                j: Seq<u8>,
            | #[trigger]
                keys.contains(j) && comparison(segments(j), segments(target@), both)
                    && prefix@.is_prefix_of(j)) ==> prefix@.is_prefix_of(k@)
        }),
{
    let keys = radix_entries(*tree).dom();
    let s = target@;
    let made = |e: int| s.take(e) + seq![':' as u8, '*' as u8, '*' as u8];
    let ends = |e: int| 0 <= e <= s.len() && (e == s.len() || s[e] == ':' as u8);
    assert forall|e: int| ends(e) && keys.contains(#[trigger] made(e)) implies candidate_in(
        keys,
        s,
        e,
    ) by {
        assert(made(e) =~= prefix_candidate(s, e));
    }
    if exists|e: int| candidate_in(keys, s, e) {
        let e = choose|e: int|
            #![trigger candidate_in(keys, s, e)]
            candidate_in(keys, s, e) && k@ == prefix_candidate(s, e) && (forall|d: int|
                d < e ==> !candidate_in(keys, s, d));
        assert(made(e) =~= prefix_candidate(s, e));
        assert(ends(e) && k@ == made(e));
        assert forall|d: int| d < e && ends(d) implies !keys.contains(#[trigger] made(d)) by {
            assert(made(d) =~= prefix_candidate(s, d));
            assert(!candidate_in(keys, s, d));
        }
        assert(keys.contains(made(e)));
    } else {
        assert forall|j: Seq<u8>| #[trigger]
            keys.contains(j) && comparison(segments(j), segments(s), both) && (
            prefix@.is_prefix_of(k@) ==> prefix@.is_prefix_of(j)) implies lex_le(k@, j) by {
            assert(Seq::<u8>::empty() =~= j.subrange(0, 0));
            if prefix@.is_prefix_of(j) {
                assert(match_under(keys, s, both, static_prefix(s), j));
            } else {
                assert(match_under(keys, s, both, Seq::empty(), j));
            }
        }
        if exists|j: Seq<u8>| #[trigger]
            keys.contains(j) && comparison(segments(j), segments(s), both) && prefix@.is_prefix_of(
                j,
            ) {
            let j = choose|j: Seq<u8>| #[trigger]
                keys.contains(j) && comparison(segments(j), segments(s), both)
                    && prefix@.is_prefix_of(j);
            assert(match_under(keys, s, both, static_prefix(s), j));
        }
    }
}

/// Of the exact addresses that a new pattern covers, the least in byte order is reported of
/// those that begin with the static prefix of the pattern; only if there is none, the one that
/// is that prefix without its last `:`.
pub proof fn law_reported_address(
    inner: &RegistryInner,
    pattern: &[u8],
    prefix: &[u8],
    k: Vec<u8>,
)
    requires
        inner@.well_formed(),
        call_ensures(static_prefix_bytes, (pattern,), prefix),
        call_ensures(RegistryInner::get_wildcard, (inner, pattern), LookupResult::Conflict(k)),
        !has_star(k@),
    ensures
        inner@.exact.contains_key(k@) && covers(segments(pattern@), segments(k@)),
        prefix@.is_prefix_of(k@) || k@ + seq![':' as u8] == prefix@,
        forall|j: Seq<u8>| #[trigger]
            inner@.exact.contains_key(j) && covers(segments(pattern@), segments(j))
                && prefix@.is_prefix_of(j) ==> prefix@.is_prefix_of(k@) && lex_le(k@, j),
{
    let keys = inner@.exact.dom();
    assert forall|j: Seq<u8>| #[trigger]
        inner@.exact.contains_key(j) && covers(segments(pattern@), segments(j))
            && prefix@.is_prefix_of(j) implies prefix@.is_prefix_of(k@) && lex_le(k@, j) by {
        assert(keys.contains(j));
        assert(covered_under(keys, pattern@, j));
    }
    if !(exists|j: Seq<u8>| covered_under(keys, pattern@, j)) {
        let p = static_prefix(pattern@);
        if p.len() > 0 && p.last() == ':' as u8 {
            assert(p.drop_last() + seq![':' as u8] =~= p);
        } else {
            assert(p =~= k@.subrange(0, p.len() as int));
        }
    }
}

} // verus!
