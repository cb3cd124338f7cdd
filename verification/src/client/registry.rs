//! A plain table of recipients: one channel per address, without patterns.

use dashmap::DashMap;
use std::hash::RandomState;
use vstd::prelude::*;

verus! {

/// The sharded hash map of the `dashmap` crate.
#[verifier::external_type_specification]
#[verifier::external_body]
#[verifier::reject_recursive_types(K)]
#[verifier::reject_recursive_types(V)]
#[verifier::reject_recursive_types(S)]
pub struct ExDashMap<K, V, S>(dashmap::DashMap<K, V, S>);

/// The entries that a table holds.
pub uninterp spec fn table_entries(table: DashMap<String, u64, RandomState>) -> Map<Seq<char>, u64>;

/// Calls `DashMap::new`, which makes an empty map.
#[verifier::external_body]
fn table_new() -> (r: DashMap<String, u64, RandomState>)
    ensures
        (table_entries(r) == Map::<Seq<char>, u64>::empty()),
{
    DashMap::new()
}

/// Calls `DashMap::insert`, which puts the value in, in place of an earlier one.
#[verifier::external_body]
fn table_insert(table: &mut DashMap<String, u64, RandomState>, key: String, value: u64)
    ensures
        table_entries(*final(table)) == table_entries(*old(table)).insert(key@, value),
{
    table.insert(key, value);
}

/// Calls `DashMap::remove`, which takes the entry out, if there is one.
#[verifier::external_body]
fn table_remove(table: &mut DashMap<String, u64, RandomState>, key: &str)
    ensures
        table_entries(*final(table)) == table_entries(*old(table)).remove(key@),
{
    table.remove(key);
}

/// Calls `DashMap::get`, which finds the value, if there is one.
#[verifier::external_body]
fn table_get(table: &DashMap<String, u64, RandomState>, key: &str) -> (r: Option<u64>)
    ensures
        r == (if table_entries(*table).contains_key(key@) {
            Some(table_entries(*table)[key@])
        } else {
            None
        }),
{
    table.get(key).map(|entry| *entry.value())
}

/// Calls `DashMap::contains_key`, which tells whether there is an entry.
#[verifier::external_body]
fn table_contains(table: &DashMap<String, u64, RandomState>, key: &str) -> (r: bool)
    ensures
        r == table_entries(*table).contains_key(key@),
{
    table.contains_key(key)
}

/// The recipients of a process, each under one address. A recipient is given by the number
/// under which its channel is kept.
pub struct LocalRegistry {
    recipients: DashMap<String, u64, RandomState>,
}

impl View for LocalRegistry {
    type V = Map<Seq<char>, u64>;

    closed spec fn view(&self) -> Map<Seq<char>, u64> {
        table_entries(self.recipients)
    }
}

impl LocalRegistry {
    /// A table without recipients.
    pub fn new() -> (r: Self)
        ensures
            (r@ == Map::<Seq<char>, u64>::empty()),
    {
        LocalRegistry { recipients: table_new() }
    }

    /// Registers a recipient, in place of an earlier one.
    pub fn register(&mut self, address: String, channel: u64)
        ensures
            final(self)@ == old(self)@.insert(address@, channel),
    {
        table_insert(&mut self.recipients, address, channel);
    }

    /// Takes a recipient out.
    pub fn unregister(&mut self, address: &str)
        ensures
            final(self)@ == old(self)@.remove(address@),
    {
        table_remove(&mut self.recipients, address);
    }

    /// The recipient that is registered for an address.
    pub fn lookup(&self, address: &str) -> (r: Option<u64>)
        ensures
            r == (if self@.contains_key(address@) {
                Some(self@[address@])
            } else {
                None
            }),
    {
        table_get(&self.recipients, address)
    }

    /// Whether a recipient is registered for an address.
    pub fn has_local(&self, address: &str) -> (r: bool)
        ensures
            r == self@.contains_key(address@),
    {
        table_contains(&self.recipients, address)
    }
}

impl Default for LocalRegistry {
    fn default() -> (r: Self)
        ensures
            (r@ == Map::<Seq<char>, u64>::empty()),
    {
        LocalRegistry::new()
    }
}

} // verus!
