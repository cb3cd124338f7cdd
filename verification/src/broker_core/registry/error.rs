//! Errors of the registry.

use vstd::prelude::*;

verus! {

/// Errors that can occur during registry operations.
#[derive(Debug, PartialEq, Eq)]
pub enum RegistryError {
    /// The address or pattern is already registered.
    AddressAlreadyOccupied(String),
    /// A new wildcard pattern overlaps with an existing address or pattern, which is named
    /// second.
    WildcardConflict(String, String),
    /// A new exact address falls under an existing wildcard pattern, which is named second.
    ConflictsWithWildcard(String, String),
    /// A wildcard pattern violates the syntax rules; the text says which.
    InvalidWildcardFormat(String),
    /// A reply to this message is already awaited.
    WaiterAlreadyExists,
    /// The address is registered under another routing policy.
    PolicyMismatch(String),
}

} // verus!
