//! The radix tree that holds routes by the bytes of their address.

use iradix::sync::Radix;
use vstd::prelude::*;

use super::routing::RouteTarget;
use super::segments::lex_le;

verus! {

/// The immutable radix tree of the `iradix` crate.
#[verifier::external_type_specification]
#[verifier::external_body]
#[verifier::reject_recursive_types(C)]
#[verifier::reject_recursive_types(V)]
pub struct ExRadix<C, V>(iradix::sync::Radix<C, V>);

/// The entries that a tree holds.
pub uninterp spec fn radix_entries(tree: Radix<u8, RouteTarget>) -> Map<Seq<u8>, RouteTarget>;

/// Calls `Radix::new`, which makes an empty tree.
#[verifier::external_body]
pub(crate) fn radix_new() -> (tree: Radix<u8, RouteTarget>)
    ensures
        (radix_entries(tree) == Map::<Seq<u8>, RouteTarget>::empty()),
{
    Radix::new()
}

/// Calls `Radix::clone`, which gives a tree with the same entries.
#[verifier::external_body]
pub(crate) fn radix_clone(tree: &Radix<u8, RouteTarget>) -> (r: Radix<u8, RouteTarget>)
    ensures
        radix_entries(r) == radix_entries(*tree),
{
    tree.clone()
}

/// Calls `Radix::is_empty`, which tells whether the tree holds no entry.
#[verifier::external_body]
pub(crate) fn radix_is_empty(tree: &Radix<u8, RouteTarget>) -> (r: bool)
    ensures
        (r <==> radix_entries(*tree) == Map::<Seq<u8>, RouteTarget>::empty()),
{
    tree.is_empty()
}

/// Calls `Radix::get`, which finds the value that is stored at exactly this key.
#[verifier::external_body]
pub(crate) fn radix_get(tree: &Radix<u8, RouteTarget>, key: &[u8]) -> (r: Option<RouteTarget>)
    ensures
        r == (if radix_entries(*tree).contains_key(key@) {
            Some(radix_entries(*tree)[key@])
        } else {
            None
        }),
{
    tree.get(key).copied()
}

/// Opens a transaction on the tree, inserts the entry with `Txn::insert` and commits, which
/// gives a tree with that entry, in place of one with the same key.
#[verifier::external_body]
pub(crate) fn radix_insert(tree: &mut Radix<u8, RouteTarget>, key: &[u8], target: RouteTarget)
    ensures
        radix_entries(*final(tree)) == radix_entries(*old(tree)).insert(key@, target),
{
    let mut txn = tree.txn();
    txn.insert(key, target);
    *tree = txn.commit();
}

/// Opens a transaction on the tree, removes the key with `Txn::remove` and commits, which
/// gives a tree without an entry for it.
#[verifier::external_body]
pub(crate) fn radix_remove(tree: &mut Radix<u8, RouteTarget>, key: &[u8])
    ensures
        radix_entries(*final(tree)) == radix_entries(*old(tree)).remove(key@),
{
    let mut txn = tree.txn();
    txn.remove(key);
    *tree = txn.commit();
}

/// Calls `Radix::walk_prefix`, which goes through the entries whose key starts with `prefix`,
/// that key itself included, each once and in ascending order of the keys.
#[verifier::external_body]
pub(crate) fn radix_walk_prefix(tree: &Radix<u8, RouteTarget>, prefix: &[u8]) -> (r: Vec<
    (Vec<u8>, RouteTarget),
>)
    ensures
        forall|i: int|
            #![trigger r@[i]]
            0 <= i < r@.len() ==> prefix@.is_prefix_of(r@[i].0@) && radix_entries(
                *tree,
            ).contains_key(r@[i].0@) && radix_entries(*tree)[r@[i].0@] == r@[i].1,
        forall|i: int, j: int|
            #![trigger r@[i], r@[j]]
            0 <= i < j < r@.len() ==> lex_le(r@[i].0@, r@[j].0@) && r@[i].0@ != r@[j].0@,
        forall|k: Seq<u8>| #[trigger]
            radix_entries(*tree).contains_key(k) && prefix@.is_prefix_of(k) ==> exists|i: int|
                #![trigger r@[i]]
                0 <= i < r@.len() && r@[i].0@ == k,
{
    tree.walk_prefix(prefix).map(|(key, target)| (key, *target)).collect()
}

} // verus!
