//! Registry of local recipients.
//!
//! A recipient is registered for an exact address or for a wildcard pattern. Segments are
//! separated by `:`. In a pattern `*` matches exactly one segment and `**`, which must be the
//! last segment, matches any number of trailing segments, none included.
//!
//! Every address has at most one recipient: a registration that would give an address a
//! second one is refused.

pub mod dispatcher_laws;
pub mod error;
pub mod laws;
pub mod load_balanced_group;
pub mod operation_laws;
pub mod pattern;
pub mod pattern_laws;
pub mod radix;
pub mod routing;
pub mod segments;
pub mod slot;
pub mod store;
pub mod store_laws;
pub mod table;

use vstd::prelude::*;
use vstd::utf8::{encode_utf8, encode_utf8_valid_utf8};

use crate::broker_core::transport::channel::MessageSender;
use crate::text::{bytes_text, utf8_lossy};
use error::RegistryError;
use laws::{law_register_keeps_exclusive_binding, law_unregister_keeps_exclusive_binding};
use pattern::{
    compare_segments_bytes, covers, fault_text, has_star, is_wildcard, lemma_pattern_fault,
    overlap, pattern_fault, segments as segments_of, validate_pattern_bytes,
    validate_wildcard_pattern, PatternFault,
};
use routing::RouteTarget;
use slot::SubscriptionSlot;
use store::{RouteStore, Store};
use table::{LookupResult, Obstacle, RegistryInner, Routes};

verus! {

/// What a registry holds.
#[verifier::ext_equal]
pub struct RegistryView {
    pub routes: Routes,
    pub store: Store,
}

impl RegistryView {
    /// The invariant of a registry.
    pub open spec fn inv(self) -> bool {
        self.routes.inv() && self.store.inv()
    }

    /// What is decided about registering `address`.
    pub open spec fn verdict(self, address: Seq<u8>) -> Verdict {
        if has_star(address) && pattern_fault(address) is Some {
            Verdict::Invalid(pattern_fault(address)->0)
        } else {
            match self.routes.obstacle(address) {
                Obstacle::Duplicate(target) => Verdict::Occupied(target),
                Obstacle::Conflict(existing) => Verdict::Conflict(existing),
                Obstacle::Free => Verdict::Free,
            }
        }
    }

    /// Whether what stands in conflict with `address`, if anything is reported to, is
    /// registered and is in conflict with it.
    pub open spec fn conflict_is_registered(self, address: Seq<u8>) -> bool {
        match self.verdict(address) {
            Verdict::Conflict(k) => self.routes.blocks(k, address),
            _ => true,
        }
    }

    /// The registry with one more route.
    pub open spec fn bound(self, address: Seq<u8>, target: RouteTarget) -> RegistryView {
        RegistryView { routes: self.routes.bind(address, target), ..self }
    }

    /// The registry with one more recipient, whose slot is new.
    pub open spec fn subscribed(self, address: Seq<u8>, channel: MessageSender) -> RegistryView {
        RegistryView {
            routes: self.routes.bind(address, RouteTarget::Single(self.store.next_id)),
            store: self.store.with_slot(
                SubscriptionSlot { sender: Some(channel), version: 1 },
            ),
        }
    }

    /// Whether the route registered under exactly `address` leads to the slot numbered `slot`.
    pub open spec fn owns(self, address: Seq<u8>, slot: u64) -> bool {
        match self.routes.entry(address) {
            Some(target) => self.store.slot_of(target) == Some(slot),
            None => false,
        }
    }

    /// The registry after the route registered under exactly `address`, if there is one, was
    /// taken out and what it led to was removed.
    pub open spec fn detached(self, address: Seq<u8>) -> RegistryView {
        match self.routes.entry(address) {
            Some(target) => RegistryView {
                routes: self.routes.unbind(address),
                store: self.store.target_removed(target),
            },
            None => self,
        }
    }

    /// The registry after the dispatcher of the group with this slot has stopped.
    pub open spec fn dispatcher_ended(self, address: Seq<u8>, slot: u64) -> RegistryView {
        let removed = RegistryView { store: self.store.without_slot(slot), ..self };
        if self.owns(address, slot) {
            removed.detached(address)
        } else {
            removed
        }
    }

    /// The registry without the route registered under exactly `address`, if that leads to
    /// the group numbered `id`.
    pub open spec fn group_unbound(self, address: Seq<u8>, id: u64) -> RegistryView {
        if self.routes.entry(address) == Some(RouteTarget::LoadBalanced(id)) {
            RegistryView { routes: self.routes.unbind(address), ..self }
        } else {
            self
        }
    }

    /// The registry after the subscription with this slot was taken from `address`, where it
    /// is one that is registered there. Of several consumers one leaves and the others go on;
    /// the route goes with the last one.
    pub open spec fn unregistered(self, address: Seq<u8>, slot: u64) -> RegistryView {
        if !self.owns(address, slot) {
            self
        } else if self.store.shared(self.routes.entry(address)->0) {
            RegistryView {
                store: self.store.target_left(self.routes.entry(address)->0),
                ..self
            }
        } else {
            self.detached(address)
        }
    }
}

/// What is decided about a registration.
pub enum Verdict {
    /// The address is a pattern that breaks a rule.
    Invalid(PatternFault),
    /// The address is registered, and leads to this target.
    Occupied(RouteTarget),
    /// This other address or pattern is registered and in conflict with it.
    Conflict(Seq<u8>),
    /// The address is free.
    Free,
}

/// Whether `e` is the error with which `address` is refused.
pub open spec fn refuses(e: RegistryError, address: Seq<char>, verdict: Verdict) -> bool {
    match verdict {
        Verdict::Invalid(fault) => e matches RegistryError::InvalidWildcardFormat(text) && text@
            == fault_text(fault, address),
        Verdict::Occupied(_) => e matches RegistryError::AddressAlreadyOccupied(text) && text@
            == address,
        Verdict::Conflict(existing) => if has_star(encode_utf8(address)) {
            e matches RegistryError::WildcardConflict(text, other) && text@ == address && other@
                == bytes_text(existing)
        } else {
            e matches RegistryError::ConflictsWithWildcard(text, other) && text@ == address
                && other@ == bytes_text(existing)
        },
        Verdict::Free => false,
    }
}

/// The registry of local recipients.
pub struct LocalRegistry {
    /// The routes.
    pub inner: RegistryInner,
    /// The slots and groups that the routes lead to.
    pub store: RouteStore,
}

impl View for LocalRegistry {
    type V = RegistryView;

    open spec fn view(&self) -> RegistryView {
        RegistryView { routes: self.inner@, store: self.store@ }
    }
}

/// What came of the operation "get the existing target or register a new one".
#[derive(Debug, Clone, Copy, PartialEq, Eq, Structural)]
pub enum RegisterResult {
    /// The address was free; it is registered for this target now.
    Registered(RouteTarget),
    /// The address was registered for this target already.
    AlreadyExists(RouteTarget),
}

impl LocalRegistry {
    /// An empty registry.
    pub fn new() -> (r: Self)
        ensures
            r@.routes == Routes::empty(),
            r@.store == Store::empty(),
            r@.inv(),
    {
        LocalRegistry { inner: RegistryInner::new(), store: RouteStore::new() }
    }

    /// Whether `pattern` covers `address`. A pattern that breaks a rule is refused.
    pub fn matches(pattern: &[u8], address: &[u8]) -> (r: Result<bool, RegistryError>)
        ensures
            match pattern_fault(pattern@) {
                Some(fault) => r matches Err(RegistryError::InvalidWildcardFormat(text)) && text@
                    == fault_text(fault, bytes_text(pattern@)),
                None => r == Ok::<bool, RegistryError>(
                    covers(segments_of(pattern@), segments_of(address@)),
                ),
            },
    {
        match validate_pattern_bytes(pattern) {
            Ok(_) => Ok(compare_segments_bytes(pattern, address, false)),
            Err(e) => Err(e),
        }
    }

    /// Whether two patterns overlap. A pattern that breaks a rule is refused, the first one
    /// first.
    pub fn patterns_conflict_bytes(pattern1: &[u8], pattern2: &[u8]) -> (r: Result<
        bool,
        RegistryError,
    >)
        ensures
            match (pattern_fault(pattern1@), pattern_fault(pattern2@)) {
                (Some(fault), _) => r matches Err(RegistryError::InvalidWildcardFormat(text))
                    && text@ == fault_text(fault, bytes_text(pattern1@)),
                (None, Some(fault)) => r matches Err(RegistryError::InvalidWildcardFormat(text))
                    && text@ == fault_text(fault, bytes_text(pattern2@)),
                (None, None) => r == Ok::<bool, RegistryError>(
                    overlap(segments_of(pattern1@), segments_of(pattern2@)),
                ),
            },
    {
        match validate_pattern_bytes(pattern1) {
            Ok(_) => match validate_pattern_bytes(pattern2) {
                Ok(_) => Ok(compare_segments_bytes(pattern1, pattern2, true)),
                Err(e) => Err(e),
            },
            Err(e) => Err(e),
        }
    }

    /// Checks whether `address` can be registered: `Ok(None)` if it is free, `Ok` with the
    /// target if it is registered already, and otherwise the error with which a registration
    /// is refused.
    pub fn find_existing(&self, address: &str) -> (r: Result<Option<RouteTarget>, RegistryError>)
        requires
            self@.inv(),
        ensures
            match self@.verdict(encode_utf8(address@)) {
                Verdict::Free => r == Ok::<Option<RouteTarget>, RegistryError>(None),
                Verdict::Occupied(target) => r == Ok::<Option<RouteTarget>, RegistryError>(
                    Some(target),
                ),
                verdict => r matches Err(e) && refuses(e, address@, verdict),
            },
            self@.conflict_is_registered(encode_utf8(address@)),
    {
        proof {
            lemma_pattern_fault(encode_utf8(address@));
        }
        let wildcard = is_wildcard(address);
        let found = if wildcard {
            match validate_wildcard_pattern(address) {
                Ok(_) => {},
                Err(e) => {
                    return Err(e);
                },
            }
            self.inner.get_wildcard(address.as_bytes())
        } else {
            self.inner.get_exact(address.as_bytes())
        };
        match found {
            LookupResult::Duplicate(target) => Ok(Some(target)),
            LookupResult::Conflict(existing) => {
                let other = utf8_lossy(existing.as_slice());
                if wildcard {
                    Err(RegistryError::WildcardConflict(address.to_string(), other))
                } else {
                    Err(RegistryError::ConflictsWithWildcard(address.to_string(), other))
                }
            },
            LookupResult::NotFound => Ok(None),
        }
    }

    /// Registers `target` for an address that is free.
    pub(crate) fn bind(&mut self, address: &str, target: RouteTarget)
        requires
            old(self)@.inv(),
            old(self)@.verdict(encode_utf8(address@)) is Free,
        ensures
            final(self)@ == old(self)@.bound(encode_utf8(address@), target),
            final(self)@.inv(),
    {
        proof {
            lemma_pattern_fault(encode_utf8(address@));
            encode_utf8_valid_utf8(address@);
            law_register_keeps_exclusive_binding(self@.routes, encode_utf8(address@), target);
        }
        self.inner.insert(address.as_bytes(), target);
    }

    /// Registers `target` for an address or a pattern.
    ///
    /// A pattern that breaks a rule, an address that is registered already and one that is in
    /// conflict with what is registered are refused, and then nothing changes.
    pub fn register(&mut self, address: String, target: RouteTarget) -> (r: Result<
        (),
        RegistryError,
    >)
        requires
            old(self)@.inv(),
        ensures
            final(self)@.inv(),
            match old(self)@.verdict(encode_utf8(address@)) {
                Verdict::Free => r is Ok && final(self)@ == old(self)@.bound(
                    encode_utf8(address@),
                    target,
                ),
                verdict => (r matches Err(e) && refuses(e, address@, verdict)) && final(self)@
                    == old(self)@,
            },
            old(self)@.conflict_is_registered(encode_utf8(address@)),
    {
        if is_wildcard(address.as_str()) {
            self.register_wildcard(address, target)
        } else {
            self.register_exact(address, target)
        }
    }

    /// Registers `target` for an exact address, unless the address is registered already or a
    /// pattern that is registered covers it.
    fn register_exact(&mut self, address: String, target: RouteTarget) -> (r: Result<
        (),
        RegistryError,
    >)
        requires
            old(self)@.inv(),
            !has_star(encode_utf8(address@)),
        ensures
            final(self)@.inv(),
            match old(self)@.verdict(encode_utf8(address@)) {
                Verdict::Free => r is Ok && final(self)@ == old(self)@.bound(
                    encode_utf8(address@),
                    target,
                ),
                verdict => (r matches Err(e) && refuses(e, address@, verdict)) && final(self)@
                    == old(self)@,
            },
            old(self)@.conflict_is_registered(encode_utf8(address@)),
    {
        match self.inner.get_exact(address.as_str().as_bytes()) {
            LookupResult::Duplicate(_) => Err(RegistryError::AddressAlreadyOccupied(address)),
            LookupResult::Conflict(existing) => {
                let other = utf8_lossy(existing.as_slice());
                Err(RegistryError::ConflictsWithWildcard(address, other))
            },
            LookupResult::NotFound => {
                self.bind(address.as_str(), target);
                Ok(())
            },
        }
    }

    /// Registers `target` for a pattern, unless the pattern breaks a rule, is registered
    /// already or shares an address with what is registered.
    fn register_wildcard(&mut self, pattern: String, target: RouteTarget) -> (r: Result<
        (),
        RegistryError,
    >)
        requires
            old(self)@.inv(),
            has_star(encode_utf8(pattern@)),
        ensures
            final(self)@.inv(),
            match old(self)@.verdict(encode_utf8(pattern@)) {
                Verdict::Free => r is Ok && final(self)@ == old(self)@.bound(
                    encode_utf8(pattern@),
                    target,
                ),
                verdict => (r matches Err(e) && refuses(e, pattern@, verdict)) && final(self)@
                    == old(self)@,
            },
            old(self)@.conflict_is_registered(encode_utf8(pattern@)),
    {
        proof {
            lemma_pattern_fault(encode_utf8(pattern@));
        }
        match validate_wildcard_pattern(pattern.as_str()) {
            Ok(_) => {},
            Err(e) => {
                return Err(e);
            },
        }
        match self.inner.get_wildcard(pattern.as_str().as_bytes()) {
            LookupResult::Duplicate(_) => Err(RegistryError::AddressAlreadyOccupied(pattern)),
            LookupResult::Conflict(existing) => {
                let other = utf8_lossy(existing.as_slice());
                Err(RegistryError::WildcardConflict(pattern, other))
            },
            LookupResult::NotFound => {
                self.bind(pattern.as_str(), target);
                Ok(())
            },
        }
    }

    /// Registers the channel to one recipient for an address or a pattern, and returns the
    /// slot that was made for it.
    pub fn register_channel(&mut self, address: String, channel: MessageSender) -> (r: Result<
        u64,
        RegistryError,
    >)
        requires
            old(self)@.inv(),
            old(self)@.store.next_id < u64::MAX,
        ensures
            final(self)@.inv(),
            match old(self)@.verdict(encode_utf8(address@)) {
                Verdict::Free => {
                    &&& r == Ok::<u64, RegistryError>(old(self)@.store.next_id)
                    &&& final(self)@ == old(self)@.subscribed(encode_utf8(address@), channel)
                },
                verdict => (r matches Err(e) && refuses(e, address@, verdict)) && final(self)@
                    == old(self)@,
            },
            old(self)@.conflict_is_registered(encode_utf8(address@)),
    {
        match self.find_existing(address.as_str()) {
            Ok(Some(_)) => Err(RegistryError::AddressAlreadyOccupied(address)),
            Ok(None) => {
                let slot: u64 = self.store.add_slot(SubscriptionSlot::new(channel));
                self.bind(address.as_str(), RouteTarget::new_exclusive(slot));
                Ok(slot)
            },
            Err(e) => Err(e),
        }
    }

    /// Returns the target that is registered for an address, or registers a new one.
    ///
    /// `factory` makes the new target. It is called only if the address is free; its error is
    /// passed on, and then nothing changes.
    pub fn get_existing_or_register<F>(&mut self, address: String, factory: F) -> (r: Result<
        RegisterResult,
        RegistryError,
    >) where F: FnOnce() -> Result<RouteTarget, RegistryError>
        requires
            old(self)@.inv(),
            old(self)@.verdict(encode_utf8(address@)) is Free ==> call_requires(factory, ()),
        ensures
            final(self)@.inv(),
            match old(self)@.verdict(encode_utf8(address@)) {
                Verdict::Free => match r {
                    Ok(RegisterResult::Registered(target)) => {
                        &&& call_ensures(factory, (), Ok::<RouteTarget, RegistryError>(target))
                        &&& final(self)@ == old(self)@.bound(encode_utf8(address@), target)
                    },
                    Ok(RegisterResult::AlreadyExists(_)) => false,
                    Err(e) => {
                        &&& call_ensures(factory, (), Err::<RouteTarget, RegistryError>(e))
                        &&& final(self)@ == old(self)@
                    },
                },
                Verdict::Occupied(target) => {
                    &&& r == Ok::<RegisterResult, RegistryError>(
                        RegisterResult::AlreadyExists(target),
                    )
                    &&& final(self)@ == old(self)@
                },
                verdict => (r matches Err(e) && refuses(e, address@, verdict)) && final(self)@
                    == old(self)@,
            },
            old(self)@.conflict_is_registered(encode_utf8(address@)),
    {
        match self.find_existing(address.as_str()) {
            Ok(Some(target)) => Ok(RegisterResult::AlreadyExists(target)),
            Ok(None) => {
                let made = factory();
                match made {
                    Ok(target) => {
                        self.bind(address.as_str(), target);
                        Ok(RegisterResult::Registered(target))
                    },
                    Err(e) => Err(e),
                }
            },
            Err(e) => Err(e),
        }
    }

    /// Takes the subscription with this slot from `address`. From a group one consumer leaves;
    /// the route goes once nobody is left. Nothing happens if the address is not registered,
    /// or leads to another slot; this is no error.
    pub fn unregister(&mut self, address: &str, slot: u64) -> (r: Result<(), RegistryError>)
        requires
            old(self)@.inv(),
        ensures
            r is Ok,
            final(self)@ == old(self)@.unregistered(encode_utf8(address@), slot),
            final(self)@.inv(),
    {
        let bytes = address.as_bytes();
        if let Some(target) = self.inner.get_entry(bytes) {
            if target.remove_slot(&mut self.store, slot) {
                proof {
                    law_unregister_keeps_exclusive_binding(self.inner@, encode_utf8(address@));
                }
                self.inner.remove(bytes);
            }
        }
        Ok(())
    }

    /// Takes whatever subscription is registered under exactly `address` from it. Nothing
    /// happens if there is none; this is no error.
    pub fn unregister_address(&mut self, address: &str) -> (r: Result<(), RegistryError>)
        requires
            old(self)@.inv(),
        ensures
            r is Ok,
            final(self)@ == old(self)@.detached(encode_utf8(address@)),
            final(self)@.inv(),
    {
        let bytes = address.as_bytes();
        if let Some(target) = self.inner.get_entry(bytes) {
            self.detach(address, target);
        }
        Ok(())
    }

    /// Takes the route that is registered under exactly `address` out, and removes the target
    /// that it leads to.
    fn detach(&mut self, address: &str, target: RouteTarget)
        requires
            old(self)@.inv(),
            old(self)@.routes.entry(encode_utf8(address@)) == Some(target),
        ensures
            final(self)@ == old(self)@.detached(encode_utf8(address@)),
            final(self)@.inv(),
    {
        match target {
            RouteTarget::Single(id) => self.store.remove_slot(id),
            RouteTarget::LoadBalanced(id) => {
                self.store.shutdown_group(id);
            },
        }
        proof {
            law_unregister_keeps_exclusive_binding(self.inner@, encode_utf8(address@));
        }
        self.inner.remove(address.as_bytes());
    }

    /// Takes the route that is registered under exactly `address` out, if it leads to the
    /// group numbered `id`. The group itself is left as it is.
    pub fn unbind_group(&mut self, address: &str, id: u64)
        requires
            old(self)@.inv(),
        ensures
            final(self)@ == old(self)@.group_unbound(encode_utf8(address@), id),
            final(self)@.inv(),
    {
        if let Some(RouteTarget::LoadBalanced(found)) = self.inner.get_entry(address.as_bytes()) {
            if found == id {
                proof {
                    law_unregister_keeps_exclusive_binding(self.inner@, encode_utf8(address@));
                }
                self.inner.remove(address.as_bytes());
            }
        }
    }

    /// The target that messages to `address` go to. The recipient of the exact address comes
    /// before that of a pattern.
    pub fn lookup(&self, address: &str) -> (r: Option<RouteTarget>)
        requires
            self@.inv(),
        ensures
            r == self@.routes.route_of(encode_utf8(address@)),
    {
        self.inner.lookup(address.as_bytes())
    }

    /// Whether a recipient is registered for exactly this address.
    pub fn has_local(&self, address: &str) -> (r: bool)
        ensures
            r == self@.routes.exact.contains_key(encode_utf8(address@)),
    {
        self.inner.has_exact(address.as_bytes())
    }

    /// Whether a recipient is registered for this address or for a pattern that covers it.
    pub fn has_route(&self, address: &str) -> (r: bool)
        requires
            self@.inv(),
        ensures
            r == (self@.routes.route_of(encode_utf8(address@)) is Some),
    {
        self.lookup(address).is_some()
    }

    /// Ends a group after its dispatcher has stopped: its slot is removed, the group is shut
    /// down with all its consumers, and its address is free again.
    pub fn dispatcher_stopped(&mut self, address: &str, slot: u64)
        requires
            old(self)@.inv(),
        ensures
            final(self)@ == old(self)@.dispatcher_ended(encode_utf8(address@), slot),
            final(self)@.inv(),
    {
        self.store.remove_slot(slot);
        if let Some(target) = self.inner.get_entry(address.as_bytes()) {
            if target.slot(&self.store) == Some(slot) {
                self.detach(address, target);
            }
        }
    }
}

} // verus!
