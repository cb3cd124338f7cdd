//! The table of routes: which address or pattern leads to which target.

use iradix::sync::Radix;
use vstd::prelude::*;
use vstd::slice::{slice_subrange, slice_to_vec};
use vstd::utf8::valid_utf8;

use super::laws::lemma_single_match;
use super::pattern::{
    bytes_equal, compare_segments_bytes, comparison, contains_star, covers, has_star, is_star,
    is_starstar, overlap, segments, split_first, star, starstar, valid_pattern, SEPARATOR, STAR,
};
use super::radix::{
    radix_clone, radix_entries, radix_get, radix_insert, radix_is_empty, radix_new, radix_remove,
    radix_walk_prefix,
};
use super::routing::RouteTarget;
use super::segments::{
    lemma_candidate_covers, lemma_first_segment_shared, lemma_lex_antisymmetric,
    lemma_lex_reflexive, lemma_static_first, lemma_static_prefix, lemma_static_prefix_of_covered,
    lex_le, prefix_candidate, segment_end, static_prefix, trim_separator,
};

verus! {

/// Whether the pattern `k` is in the way of `target`: it covers it or, between patterns,
/// overlaps it.
pub open spec fn matches_key(k: Seq<u8>, target: Seq<u8>, both: bool) -> bool {
    comparison(segments(k), segments(target), both)
}

/// Whether one of the patterns that are made of leading segments of `target` is a key.
pub open spec fn candidate_in(keys: Set<Seq<u8>>, target: Seq<u8>, e: int) -> bool {
    segment_end(target, e) && keys.contains(prefix_candidate(target, e))
}

/// Whether `k` is one of the keys that match `target` and start with `prefix`.
pub open spec fn match_under(
    keys: Set<Seq<u8>>,
    target: Seq<u8>,
    both: bool,
    prefix: Seq<u8>,
    k: Seq<u8>,
) -> bool {
    keys.contains(k) && matches_key(k, target, both) && prefix.is_prefix_of(k)
}

/// Whether `k` is the least of the keys that match `target` and start with `prefix`.
pub open spec fn is_least_match(
    keys: Set<Seq<u8>>,
    target: Seq<u8>,
    both: bool,
    prefix: Seq<u8>,
    k: Seq<u8>,
) -> bool {
    match_under(keys, target, both, prefix, k) && forall|j: Seq<u8>| #[trigger]
        match_under(keys, target, both, prefix, j) ==> lex_le(k, j)
}

/// Whether `k` is the prefix wildcard that is found first for `target`: the shortest one that
/// is made of leading segments of `target`; if there is none, the least key that matches and
/// starts with the static prefix of `target`; and if there is none either, the least key that
/// matches.
pub open spec fn is_first_match(
    keys: Set<Seq<u8>>,
    target: Seq<u8>,
    both: bool,
    k: Seq<u8>,
) -> bool {
    if exists|e: int| candidate_in(keys, target, e) {
        exists|e: int|
            #![trigger candidate_in(keys, target, e)]
            candidate_in(keys, target, e) && k == prefix_candidate(target, e) && (forall|d: int|
                d < e ==> !candidate_in(keys, target, d))
    } else if exists|j: Seq<u8>| match_under(keys, target, both, static_prefix(target), j) {
        is_least_match(keys, target, both, static_prefix(target), k)
    } else {
        is_least_match(keys, target, both, Seq::empty(), k)
    }
}

/// The prefix wildcard that is found for `target`, if one matches.
pub open spec fn prefix_match(keys: Set<Seq<u8>>, target: Seq<u8>, both: bool) -> Option<Seq<u8>> {
    if exists|k: Seq<u8>| #[trigger] keys.contains(k) && matches_key(k, target, both) {
        Some(choose|k: Seq<u8>| is_first_match(keys, target, both, k))
    } else {
        None
    }
}

proof fn lemma_first_match_unique(
    keys: Set<Seq<u8>>,
    target: Seq<u8>,
    both: bool,
    k: Seq<u8>,
    j: Seq<u8>,
)
    requires
        is_first_match(keys, target, both, k),
        is_first_match(keys, target, both, j),
    ensures
        k == j,
{
    if exists|e: int| candidate_in(keys, target, e) {
        let d = choose|e: int|
            #![trigger candidate_in(keys, target, e)]
            candidate_in(keys, target, e) && k == prefix_candidate(target, e) && (forall|d: int|
                d < e ==> !candidate_in(keys, target, d));
        let e = choose|e: int|
            #![trigger candidate_in(keys, target, e)]
            candidate_in(keys, target, e) && j == prefix_candidate(target, e) && (forall|d: int|
                d < e ==> !candidate_in(keys, target, d));
        assert(d == e);
    } else {
        lemma_lex_antisymmetric(k, j);
    }
}

/// Finds the prefix wildcard that matches `target`, with what it leads to.
pub fn find_prefix_match(tree: &Radix<u8, RouteTarget>, target: &[u8], both: bool) -> (r: Option<
    (Vec<u8>, RouteTarget),
>)
    requires
        forall|k: Seq<u8>| #[trigger] radix_entries(*tree).contains_key(k) ==> valid_pattern(k),
    ensures
        match r {
            None => prefix_match(radix_entries(*tree).dom(), target@, both) is None,
            Some((k, t)) => {
                &&& prefix_match(radix_entries(*tree).dom(), target@, both) == Some(k@)
                &&& radix_entries(*tree).contains_key(k@)
                &&& radix_entries(*tree)[k@] == t
                &&& matches_key(k@, target@, both)
                &&& is_first_match(radix_entries(*tree).dom(), target@, both, k@)
            },
        },
{
    let ghost entries = radix_entries(*tree);
    let ghost keys = entries.dom();
    if radix_is_empty(tree) {
        return None;
    }
    let n = target.len();
    let mut e: usize = 0;
    loop
        invariant_except_break
            forall|d: int| d < e ==> !candidate_in(keys, target@, d),
        invariant
            n == target@.len(),
            e <= n,
            entries == radix_entries(*tree),
            keys == entries.dom(),
            forall|k: Seq<u8>| #[trigger] entries.contains_key(k) ==> valid_pattern(k),
        ensures
            forall|d: int| !candidate_in(keys, target@, d),
        decreases n - e,
    {
        if e == n || target[e] == SEPARATOR {
            let mut candidate = slice_to_vec(slice_subrange(target, 0, e));
            candidate.push(SEPARATOR);
            candidate.push(STAR);
            candidate.push(STAR);
            assert(candidate@ =~= prefix_candidate(target@, e as int));
            if let Some(t) = radix_get(tree, candidate.as_slice()) {
                proof {
                    assert(candidate_in(keys, target@, e as int));
                    assert(entries.contains_key(candidate@));
                    lemma_candidate_covers(target@, e as int);
                    assert(is_first_match(keys, target@, both, candidate@));
                    let c = choose|k: Seq<u8>| is_first_match(keys, target@, both, k);
                    lemma_first_match_unique(keys, target@, both, c, candidate@);
                }
                return Some((candidate, t));
            }
        }
        if e == n {
            break;
        }
        e = e + 1;
    }
    let near = static_prefix_bytes(target);
    if let Some((key, t)) = find_least_match(tree, target, both, near) {
        proof {
            assert(match_under(keys, target@, both, static_prefix(target@), key@));
            assert(is_first_match(keys, target@, both, key@));
            let c = choose|k: Seq<u8>| is_first_match(keys, target@, both, k);
            lemma_first_match_unique(keys, target@, both, c, key@);
        }
        return Some((key, t));
    }
    let (first, _rest) = split_first(target);
    assert(segments(target@)[0] == first@);
    let prefix = if is_star(first) || is_starstar(first) {
        slice_subrange(target, 0, 0)
    } else {
        first
    };
    assert forall|k: Seq<u8>| #[trigger]
        match_under(keys, target@, both, Seq::empty(), k) implies match_under(
        keys,
        target@,
        both,
        prefix@,
        k,
    ) by {
        assert(entries.contains_key(k));
        if first@ == star() || first@ == starstar() {
            assert(prefix@ =~= k.subrange(0, 0));
        } else {
            lemma_first_segment_shared(k, target@, both);
        }
    }
    assert forall|k: Seq<u8>| #[trigger]
        keys.contains(k) && matches_key(k, target@, both) implies match_under(
        keys,
        target@,
        both,
        Seq::empty(),
        k,
    ) by {
        assert(Seq::<u8>::empty() =~= k.subrange(0, 0));
    }
    match find_least_match(tree, target, both, prefix) {
        Some((key, t)) => {
            proof {
                assert(is_least_match(keys, target@, both, Seq::empty(), key@));
                assert(is_first_match(keys, target@, both, key@));
                let c = choose|k: Seq<u8>| is_first_match(keys, target@, both, k);
                lemma_first_match_unique(keys, target@, both, c, key@);
            }
            Some((key, t))
        },
        None => None,
    }
}

/// Finds the least key of the tree that matches `target` and starts with `prefix`, with what
/// it leads to.
fn find_least_match(tree: &Radix<u8, RouteTarget>, target: &[u8], both: bool, prefix: &[u8]) -> (r:
    Option<(Vec<u8>, RouteTarget)>)
    ensures
        match r {
            None => forall|k: Seq<u8>|
                !match_under(radix_entries(*tree).dom(), target@, both, prefix@, k),
            Some((k, t)) => {
                &&& is_least_match(radix_entries(*tree).dom(), target@, both, prefix@, k@)
                &&& radix_entries(*tree)[k@] == t
            },
        },
{
    let ghost entries = radix_entries(*tree);
    let ghost keys = entries.dom();
    let found = radix_walk_prefix(tree, prefix);
    let mut i: usize = 0;
    while i < found.len()
        invariant
            i <= found@.len(),
            forall|j: int| 0 <= j < i ==> !matches_key(#[trigger] found@[j].0@, target@, both),
            entries == radix_entries(*tree),
            keys == entries.dom(),
            forall|j: int|
                #![trigger found@[j]]
                0 <= j < found@.len() ==> prefix@.is_prefix_of(found@[j].0@)
                    && entries.contains_key(found@[j].0@) && entries[found@[j].0@] == found@[j].1,
            forall|i: int, j: int|
                #![trigger found@[i], found@[j]]
                0 <= i < j < found@.len() ==> lex_le(found@[i].0@, found@[j].0@),
            forall|k: Seq<u8>| #[trigger]
                entries.contains_key(k) && prefix@.is_prefix_of(k) ==> exists|j: int|
                    #![trigger found@[j]]
                    0 <= j < found@.len() && found@[j].0@ == k,
        decreases found@.len() - i,
    {
        if compare_segments_bytes(found[i].0.as_slice(), target, both) {
            let key = slice_to_vec(found[i].0.as_slice());
            proof {
                assert(keys.contains(key@));
                assert forall|j: Seq<u8>| #[trigger]
                    match_under(keys, target@, both, prefix@, j) implies lex_le(key@, j) by {
                    assert(entries.contains_key(j));
                    let m = choose|m: int|
                        #![trigger found@[m]]
                        0 <= m < found@.len() && found@[m].0@ == j;
                    assert(found@[m].0@ == j);
                    if m == i {
                        lemma_lex_reflexive(j);
                    } else {
                        assert(i < m);
                        assert(lex_le(found@[i as int].0@, found@[m].0@));
                    }
                }
            }
            return Some((key, found[i].1));
        }
        i = i + 1;
    }
    assert forall|k: Seq<u8>| !match_under(keys, target@, both, prefix@, k) by {
        if match_under(keys, target@, both, prefix@, k) {
            assert(entries.contains_key(k));
            let m = choose|m: int|
                #![trigger found@[m]]
                0 <= m < found@.len() && found@[m].0@ == k;
            assert(!matches_key(found@[m].0@, target@, both));
        }
    }
    None
}

/// Finds the prefix wildcard that overlaps the pattern `pattern`.
pub fn check_prefix_wildcard_conflicts(tree: &Radix<u8, RouteTarget>, pattern: &[u8]) -> (r: Option<
    Vec<u8>,
>)
    requires
        forall|k: Seq<u8>| #[trigger] radix_entries(*tree).contains_key(k) ==> valid_pattern(k),
    ensures
        match r {
            None => prefix_match(radix_entries(*tree).dom(), pattern@, true) is None,
            Some(k) => {
                &&& prefix_match(radix_entries(*tree).dom(), pattern@, true) == Some(k@)
                &&& radix_entries(*tree).contains_key(k@)
                &&& matches_key(k@, pattern@, true)
            },
        },
{
    match find_prefix_match(tree, pattern, true) {
        Some((k, _target)) => Some(k),
        None => None,
    }
}

// ---------------------------------------------------------------------------------------
// The routes as mathematical values
// ---------------------------------------------------------------------------------------

/// Whether an address or pattern ends in `**`.
pub open spec fn ends_with_starstar(s: Seq<u8>) -> bool {
    s.len() >= 2 && s[s.len() - 1] == STAR && s[s.len() - 2] == STAR
}

/// The first of the patterns `singles` that matches `target`, with what it leads to.
pub open spec fn single_match(
    singles: Seq<(Seq<u8>, RouteTarget)>,
    target: Seq<u8>,
    both: bool,
) -> Option<(Seq<u8>, RouteTarget)>
    decreases singles.len(),
{
    if singles.len() == 0 {
        None
    } else if matches_key(singles[0].0, target, both) {
        Some(singles[0])
    } else {
        single_match(singles.skip(1), target, both)
    }
}

/// What `singles` leads to from exactly the pattern `pattern`.
pub open spec fn single_entry(
    singles: Seq<(Seq<u8>, RouteTarget)>,
    pattern: Seq<u8>,
) -> Option<RouteTarget>
    decreases singles.len(),
{
    if singles.len() == 0 {
        None
    } else if singles[0].0 == pattern {
        Some(singles[0].1)
    } else {
        single_entry(singles.skip(1), pattern)
    }
}

/// `singles` without the first entry for exactly the pattern `pattern`.
pub open spec fn single_remove(
    singles: Seq<(Seq<u8>, RouteTarget)>,
    pattern: Seq<u8>,
) -> Seq<(Seq<u8>, RouteTarget)>
    decreases singles.len(),
{
    if singles.len() == 0 {
        singles
    } else if singles[0].0 == pattern {
        singles.skip(1)
    } else {
        seq![singles[0]] + single_remove(singles.skip(1), pattern)
    }
}

/// Whether `k` is one of the addresses `keys` that `pattern` covers and that start with its
/// static prefix.
pub open spec fn covered_under(keys: Set<Seq<u8>>, pattern: Seq<u8>, k: Seq<u8>) -> bool {
    keys.contains(k) && matches_key(pattern, k, false) && static_prefix(pattern).is_prefix_of(k)
}

/// Whether `k` is the address that is found first of the addresses `keys` that `pattern`
/// covers: the least one that starts with the static prefix of the pattern; only if there is
/// none, the static prefix itself without its last separator.
pub open spec fn is_first_covered(keys: Set<Seq<u8>>, pattern: Seq<u8>, k: Seq<u8>) -> bool {
    if exists|j: Seq<u8>| covered_under(keys, pattern, j) {
        covered_under(keys, pattern, k) && forall|j: Seq<u8>| #[trigger]
            covered_under(keys, pattern, j) ==> lex_le(k, j)
    } else {
        keys.contains(k) && matches_key(pattern, k, false) && k == trim_separator(
            static_prefix(pattern),
        )
    }
}

/// The address that is found first of the addresses `keys` that `pattern` covers, if it covers
/// one.
pub open spec fn covered_address(keys: Set<Seq<u8>>, pattern: Seq<u8>) -> Option<Seq<u8>> {
    if exists|k: Seq<u8>| #[trigger] keys.contains(k) && matches_key(pattern, k, false) {
        Some(choose|k: Seq<u8>| is_first_covered(keys, pattern, k))
    } else {
        None
    }
}

proof fn lemma_first_covered_unique(
    keys: Set<Seq<u8>>,
    pattern: Seq<u8>,
    k: Seq<u8>,
    j: Seq<u8>,
)
    requires
        is_first_covered(keys, pattern, k),
        is_first_covered(keys, pattern, j),
    ensures
        k == j,
{
    if exists|i: Seq<u8>| covered_under(keys, pattern, i) {
        lemma_lex_antisymmetric(k, j);
    }
}

/// What stands in the way of registering an address.
pub enum Obstacle {
    /// The address itself is registered, and leads to this target.
    Duplicate(RouteTarget),
    /// This other address or pattern is registered and in conflict with it.
    Conflict(Seq<u8>),
    /// Nothing.
    Free,
}

/// All routes: exact addresses, patterns that end in `**`, and the other patterns in the
/// order in which they were registered.
#[verifier::ext_equal]
pub struct Routes {
    pub exact: Map<Seq<u8>, RouteTarget>,
    pub prefix: Map<Seq<u8>, RouteTarget>,
    pub singles: Seq<(Seq<u8>, RouteTarget)>,
}

impl Routes {
    /// No routes at all.
    pub open spec fn empty() -> Routes {
        Routes { exact: Map::empty(), prefix: Map::empty(), singles: Seq::empty() }
    }

    /// The target that is registered under exactly this address or pattern.
    pub open spec fn entry(self, address: Seq<u8>) -> Option<RouteTarget> {
        if !has_star(address) {
            if self.exact.contains_key(address) {
                Some(self.exact[address])
            } else {
                None
            }
        } else if ends_with_starstar(address) {
            if self.prefix.contains_key(address) {
                Some(self.prefix[address])
            } else {
                None
            }
        } else {
            single_entry(self.singles, address)
        }
    }

    /// What stands in the way of the exact address `address`.
    pub open spec fn exact_obstacle(self, address: Seq<u8>) -> Obstacle {
        if self.exact.contains_key(address) {
            Obstacle::Duplicate(self.exact[address])
        } else {
            match prefix_match(self.prefix.dom(), address, false) {
                Some(k) => Obstacle::Conflict(k),
                None => match single_match(self.singles, address, false) {
                    Some((k, _)) => Obstacle::Conflict(k),
                    None => Obstacle::Free,
                },
            }
        }
    }

    /// What stands in the way of the wildcard pattern `pattern`.
    pub open spec fn wildcard_obstacle(self, pattern: Seq<u8>) -> Obstacle {
        match self.entry(pattern) {
            Some(target) => Obstacle::Duplicate(target),
            None => match prefix_match(self.prefix.dom(), pattern, true) {
                Some(k) => Obstacle::Conflict(k),
                None => match single_match(self.singles, pattern, true) {
                    Some((k, _)) => Obstacle::Conflict(k),
                    None => match covered_address(self.exact.dom(), pattern) {
                        Some(k) => Obstacle::Conflict(k),
                        None => Obstacle::Free,
                    },
                },
            },
        }
    }

    /// Whether `k` is registered and in conflict with `address`: between patterns that they
    /// overlap, and otherwise that the pattern covers the exact address.
    pub open spec fn blocks(self, k: Seq<u8>, address: Seq<u8>) -> bool {
        if !has_star(k) {
            has_star(address) && self.exact.contains_key(k) && covers(
                segments(address),
                segments(k),
            )
        } else {
            &&& self.prefix.contains_key(k) || exists|i: int|
                #![trigger self.singles[i]]
                0 <= i < self.singles.len() && self.singles[i].0 == k
            &&& if has_star(address) {
                overlap(segments(k), segments(address))
            } else {
                covers(segments(k), segments(address))
            }
        }
    }

    /// What stands in the way of registering `address`.
    pub open spec fn obstacle(self, address: Seq<u8>) -> Obstacle {
        if has_star(address) {
            self.wildcard_obstacle(address)
        } else {
            self.exact_obstacle(address)
        }
    }

    /// The routes with one more, from `address` to `target`.
    pub open spec fn bind(self, address: Seq<u8>, target: RouteTarget) -> Routes {
        if !has_star(address) {
            Routes { exact: self.exact.insert(address, target), ..self }
        } else if ends_with_starstar(address) {
            Routes { prefix: self.prefix.insert(address, target), ..self }
        } else {
            Routes { singles: self.singles.push((address, target)), ..self }
        }
    }

    /// The routes without the one that is registered under exactly `address`.
    pub open spec fn unbind(self, address: Seq<u8>) -> Routes {
        if !has_star(address) {
            Routes { exact: self.exact.remove(address), ..self }
        } else if ends_with_starstar(address) {
            Routes { prefix: self.prefix.remove(address), ..self }
        } else {
            Routes { singles: single_remove(self.singles, address), ..self }
        }
    }

    /// The target that messages to `address` go to: the one registered for the address
    /// itself, before that of a wildcard that covers it.
    pub open spec fn route_of(self, address: Seq<u8>) -> Option<RouteTarget> {
        if self.exact.contains_key(address) {
            Some(self.exact[address])
        } else {
            match prefix_match(self.prefix.dom(), address, false) {
                Some(k) => Some(self.prefix[k]),
                None => match single_match(self.singles, address, false) {
                    Some((_, target)) => Some(target),
                    None => None,
                },
            }
        }
    }

    /// Whether `pattern` is registered as a wildcard and leads to `target`.
    pub open spec fn has_wildcard(self, pattern: Seq<u8>, target: RouteTarget) -> bool {
        ||| self.prefix.contains_key(pattern) && self.prefix[pattern] == target
        ||| self.singles.contains((pattern, target))
    }

    /// Exact addresses hold no `*`, patterns obey the wildcard rules, and all are UTF-8.
    pub open spec fn well_formed(self) -> bool {
        &&& forall|k: Seq<u8>| #[trigger]
            self.exact.contains_key(k) ==> !has_star(k) && valid_utf8(k)
        &&& forall|k: Seq<u8>| #[trigger]
            self.prefix.contains_key(k) ==> valid_pattern(k) && valid_utf8(k) && has_star(k)
                && ends_with_starstar(k)
        &&& forall|i: int|
            #![trigger self.singles[i]]
            0 <= i < self.singles.len() ==> valid_pattern(self.singles[i].0) && valid_utf8(
                self.singles[i].0,
            ) && has_star(self.singles[i].0) && !ends_with_starstar(self.singles[i].0)
    }

    /// No two registered patterns overlap, and none covers a registered exact address.
    pub open spec fn exclusive(self) -> bool {
        &&& forall|j: Seq<u8>, k: Seq<u8>|
            #![trigger self.prefix.contains_key(j), self.prefix.contains_key(k)]
            self.prefix.contains_key(j) && self.prefix.contains_key(k) && j != k ==> !overlap(
                segments(j),
                segments(k),
            )
        &&& forall|i: int, j: int|
            #![trigger self.singles[i], self.singles[j]]
            0 <= i < self.singles.len() && 0 <= j < self.singles.len() && i != j ==> !overlap(
                segments(self.singles[i].0),
                segments(self.singles[j].0),
            )
        &&& forall|k: Seq<u8>, i: int|
            #![trigger self.prefix.contains_key(k), self.singles[i]]
            self.prefix.contains_key(k) && 0 <= i < self.singles.len() ==> !overlap(
                segments(k),
                segments(self.singles[i].0),
            )
        &&& forall|a: Seq<u8>, k: Seq<u8>|
            #![trigger self.exact.contains_key(a), self.prefix.contains_key(k)]
            self.exact.contains_key(a) && self.prefix.contains_key(k) ==> !covers(
                segments(k),
                segments(a),
            )
        &&& forall|a: Seq<u8>, i: int|
            #![trigger self.exact.contains_key(a), self.singles[i]]
            self.exact.contains_key(a) && 0 <= i < self.singles.len() ==> !covers(
                segments(self.singles[i].0),
                segments(a),
            )
    }

    /// The invariant of the registry: its routes are well formed and do not get in each
    /// other's way.
    pub open spec fn inv(self) -> bool {
        self.well_formed() && self.exclusive()
    }
}

// ---------------------------------------------------------------------------------------
// The routes as stored
// ---------------------------------------------------------------------------------------

/// The routes of a registry.
pub struct RegistryInner {
    /// Exact address to target.
    pub exact_tree: Radix<u8, RouteTarget>,
    /// Patterns that end in `**`.
    pub prefix_wildcard_tree: Radix<u8, RouteTarget>,
    /// The other patterns.
    pub single_wildcards: Vec<(Vec<u8>, RouteTarget)>,
}

impl View for RegistryInner {
    type V = Routes;

    open spec fn view(&self) -> Routes {
        Routes {
            exact: radix_entries(self.exact_tree),
            prefix: radix_entries(self.prefix_wildcard_tree),
            singles: Seq::new(
                self.single_wildcards@.len(),
                |i: int| (self.single_wildcards@[i].0@, self.single_wildcards@[i].1),
            ),
        }
    }
}

impl Clone for RegistryInner {
    /// Takes a snapshot of the routes.
    fn clone(&self) -> (r: Self)
        ensures
            r@ == self@,
    {
        let mut single_wildcards: Vec<(Vec<u8>, RouteTarget)> = Vec::new();
        let mut i: usize = 0;
        while i < self.single_wildcards.len()
            invariant
                i <= self.single_wildcards@.len(),
                single_wildcards@.len() == i,
                forall|j: int|
                    #![trigger single_wildcards@[j]]
                    0 <= j < i ==> single_wildcards@[j].0@ == self.single_wildcards@[j].0@
                        && single_wildcards@[j].1 == self.single_wildcards@[j].1,
            decreases self.single_wildcards@.len() - i,
        {
            single_wildcards.push(
                (
                    slice_to_vec(self.single_wildcards[i].0.as_slice()),
                    self.single_wildcards[i].1,
                ),
            );
            i = i + 1;
        }
        let r = RegistryInner {
            exact_tree: radix_clone(&self.exact_tree),
            prefix_wildcard_tree: radix_clone(&self.prefix_wildcard_tree),
            single_wildcards,
        };
        assert(r@.singles =~= self@.singles);
        r
    }
}

/// What a check before registration found.
pub enum LookupResult {
    /// The address is already registered.
    Duplicate(RouteTarget),
    /// This other address or pattern is in conflict with it.
    Conflict(Vec<u8>),
    /// The address is free for registration.
    NotFound,
}

impl View for LookupResult {
    type V = Obstacle;

    open spec fn view(&self) -> Obstacle {
        match self {
            LookupResult::Duplicate(target) => Obstacle::Duplicate(*target),
            LookupResult::Conflict(existing) => Obstacle::Conflict(existing@),
            LookupResult::NotFound => Obstacle::Free,
        }
    }
}

/// The bytes of `pattern` before its first `*`.
pub fn static_prefix_bytes(pattern: &[u8]) -> (r: &[u8])
    ensures
        r@ == static_prefix(pattern@),
{
    let mut i: usize = 0;
    while i < pattern.len() && pattern[i] != STAR
        invariant
            i <= pattern@.len(),
            forall|j: int| 0 <= j < i ==> pattern@[j] != STAR,
        decreases pattern@.len() - i,
    {
        i = i + 1;
    }
    proof {
        lemma_static_prefix(pattern@, i as nat);
        assert(pattern@.take(i as int) =~= pattern@.subrange(0, i as int));
    }
    slice_subrange(pattern, 0, i)
}

/// Whether a slice ends in `**`.
pub fn has_starstar_end(s: &[u8]) -> (r: bool)
    ensures
        r == ends_with_starstar(s@),
{
    s.len() >= 2 && s[s.len() - 1] == STAR && s[s.len() - 2] == STAR
}

impl RegistryInner {
    /// A table without routes.
    pub fn new() -> (inner: Self)
        ensures
            inner@ == Routes::empty(),
            inner@.inv(),
    {
        let inner = RegistryInner {
            exact_tree: radix_new(),
            prefix_wildcard_tree: radix_new(),
            single_wildcards: Vec::new(),
        };
        assert(inner@.singles =~= Seq::empty());
        inner
    }

    /// Finds the first single wildcard that matches `target`.
    fn find_single_match(&self, target: &[u8], both: bool) -> (r: Option<usize>)
        ensures
            match r {
                None => single_match(self@.singles, target@, both) is None,
                Some(i) => i < self@.singles.len() && single_match(self@.singles, target@, both)
                    == Some(self@.singles[i as int]),
            },
    {
        let ghost singles = self@.singles;
        let mut i: usize = 0;
        assert(singles.skip(0) =~= singles);
        while i < self.single_wildcards.len()
            invariant
                singles == self@.singles,
                i <= singles.len(),
                single_match(singles, target@, both) == single_match(
                    singles.skip(i as int),
                    target@,
                    both,
                ),
            decreases singles.len() - i,
        {
            let ghost rest = singles.skip(i as int);
            assert(rest[0] == singles[i as int]);
            assert(rest.skip(1) =~= singles.skip(i + 1));
            if compare_segments_bytes(self.single_wildcards[i].0.as_slice(), target, both) {
                return Some(i);
            }
            i = i + 1;
        }
        None
    }

    /// Finds the single wildcard that is registered under exactly this pattern.
    fn find_single(&self, pattern: &[u8]) -> (r: Option<usize>)
        ensures
            match r {
                None => single_entry(self@.singles, pattern@) is None && single_remove(
                    self@.singles,
                    pattern@,
                ) == self@.singles,
                Some(i) => i < self@.singles.len() && self@.singles[i as int].0 == pattern@
                    && single_entry(self@.singles, pattern@) == Some(self@.singles[i as int].1)
                    && single_remove(self@.singles, pattern@) == self@.singles.remove(i as int),
            },
    {
        let ghost singles = self@.singles;
        let mut i: usize = 0;
        assert(singles.skip(0) =~= singles);
        assert(singles.take(0) + single_remove(singles, pattern@) =~= single_remove(
            singles,
            pattern@,
        ));
        while i < self.single_wildcards.len()
            invariant
                singles == self@.singles,
                i <= singles.len(),
                single_entry(singles, pattern@) == single_entry(singles.skip(i as int), pattern@),
                single_remove(singles, pattern@) == singles.take(i as int) + single_remove(
                    singles.skip(i as int),
                    pattern@,
                ),
            decreases singles.len() - i,
        {
            let ghost rest = singles.skip(i as int);
            proof {
                assert(rest[0] == singles[i as int]);
                assert(rest.skip(1) =~= singles.skip(i + 1));
            }
            if bytes_equal(self.single_wildcards[i].0.as_slice(), pattern) {
                assert(singles.take(i as int) + singles.skip(i + 1) =~= singles.remove(i as int));
                return Some(i);
            }
            assert(singles.take(i as int) + (seq![singles[i as int]] + single_remove(
                rest.skip(1),
                pattern@,
            )) =~= singles.take(i + 1) + single_remove(rest.skip(1), pattern@));
            i = i + 1;
        }
        assert(singles.take(i as int) + singles.skip(i as int) =~= singles);
        None
    }

    /// The target that is registered under exactly this address or pattern.
    pub fn get_entry(&self, address: &[u8]) -> (r: Option<RouteTarget>)
        ensures
            r == self@.entry(address@),
    {
        if !contains_star(address) {
            radix_get(&self.exact_tree, address)
        } else if has_starstar_end(address) {
            radix_get(&self.prefix_wildcard_tree, address)
        } else {
            match self.find_single(address) {
                Some(i) => Some(self.single_wildcards[i].1),
                None => None,
            }
        }
    }

    /// Whether exactly this address is registered, other than as a pattern.
    pub fn has_exact(&self, address: &[u8]) -> (r: bool)
        ensures
            r == self@.exact.contains_key(address@),
    {
        radix_get(&self.exact_tree, address).is_some()
    }

    /// Checks an exact address for a duplicate and for conflicts with wildcard patterns.
    pub fn get_exact(&self, address: &[u8]) -> (r: LookupResult)
        requires
            self@.well_formed(),
        ensures
            r@ == self@.exact_obstacle(address@),
            !has_star(address@) ==> (r matches LookupResult::Conflict(k) ==> self@.blocks(
                k@,
                address@,
            )),
    {
        if let Some(target) = radix_get(&self.exact_tree, address) {
            return LookupResult::Duplicate(target);
        }
        if let Some((k, _t)) = find_prefix_match(&self.prefix_wildcard_tree, address, false) {
            return LookupResult::Conflict(k);
        }
        proof {
            lemma_single_match(self@.singles, address@, false);
        }
        match self.find_single_match(address, false) {
            Some(i) => {
                assert(self@.singles[i as int].0 == self.single_wildcards@[i as int].0@);
                LookupResult::Conflict(slice_to_vec(self.single_wildcards[i].0.as_slice()))
            },
            None => LookupResult::NotFound,
        }
    }

    /// Finds the first exact address that `pattern` covers.
    fn find_covered_address(&self, pattern: &[u8]) -> (r: Option<Vec<u8>>)
        requires
            self@.well_formed(),
            valid_pattern(pattern@),
        ensures
            match r {
                None => covered_address(self@.exact.dom(), pattern@) is None,
                Some(k) => covered_address(self@.exact.dom(), pattern@) == Some(k@),
            },
            r matches Some(k) ==> self@.exact.contains_key(k@) && matches_key(
                pattern@,
                k@,
                false,
            ) && is_first_covered(self@.exact.dom(), pattern@, k@),
    {
        let ghost entries = self@.exact;
        let ghost keys = entries.dom();
        let prefix = static_prefix_bytes(pattern);
        let found = radix_walk_prefix(&self.exact_tree, prefix);
        let mut i: usize = 0;
        while i < found.len()
            invariant
                i <= found@.len(),
                forall|j: int|
                    0 <= j < i ==> !matches_key(pattern@, #[trigger] found@[j].0@, false),
                entries == self@.exact,
                keys == entries.dom(),
                prefix@ == static_prefix(pattern@),
                forall|j: int|
                    #![trigger found@[j]]
                    0 <= j < found@.len() ==> prefix@.is_prefix_of(found@[j].0@)
                        && entries.contains_key(found@[j].0@),
                forall|i: int, j: int|
                    #![trigger found@[i], found@[j]]
                    0 <= i < j < found@.len() ==> lex_le(found@[i].0@, found@[j].0@),
                forall|k: Seq<u8>| #[trigger]
                    entries.contains_key(k) && prefix@.is_prefix_of(k) ==> exists|j: int|
                        #![trigger found@[j]]
                        0 <= j < found@.len() && found@[j].0@ == k,
            decreases found@.len() - i,
        {
            if compare_segments_bytes(pattern, found[i].0.as_slice(), false) {
                let key = slice_to_vec(found[i].0.as_slice());
                proof {
                    assert(keys.contains(key@));
                    assert(covered_under(keys, pattern@, key@));
                    assert forall|j: Seq<u8>| #[trigger]
                        covered_under(keys, pattern@, j) implies lex_le(key@, j) by {
                        assert(entries.contains_key(j));
                        let m = choose|m: int|
                            #![trigger found@[m]]
                            0 <= m < found@.len() && found@[m].0@ == j;
                        assert(found@[m].0@ == j);
                        if m == i {
                            lemma_lex_reflexive(j);
                        } else {
                            assert(i < m);
                            assert(lex_le(found@[i as int].0@, found@[m].0@));
                        }
                    }
                    assert(is_first_covered(keys, pattern@, key@));
                    let c = choose|k: Seq<u8>| is_first_covered(keys, pattern@, k);
                    lemma_first_covered_unique(keys, pattern@, c, key@);
                }
                return Some(key);
            }
            i = i + 1;
        }
        assert forall|k: Seq<u8>| !covered_under(keys, pattern@, k) by {
            if covered_under(keys, pattern@, k) {
                assert(entries.contains_key(k));
                let m = choose|m: int|
                    #![trigger found@[m]]
                    0 <= m < found@.len() && found@[m].0@ == k;
                assert(!matches_key(pattern@, found@[m].0@, false));
            }
        }
        let n = prefix.len();
        let address = if n > 0 && prefix[n - 1] == SEPARATOR {
            slice_subrange(prefix, 0, n - 1)
        } else {
            prefix
        };
        assert(address@ =~= trim_separator(static_prefix(pattern@)));
        assert forall|k: Seq<u8>| #[trigger]
            keys.contains(k) && matches_key(pattern@, k, false) implies k == address@ by {
            assert(entries.contains_key(k));
            lemma_static_first(pattern@);
            lemma_static_prefix_of_covered(pattern@, k);
            assert(!covered_under(keys, pattern@, k));
        }
        if self.has_exact(address) && compare_segments_bytes(pattern, address, false) {
            proof {
                assert(keys.contains(address@));
                assert(is_first_covered(keys, pattern@, address@));
                let c = choose|k: Seq<u8>| is_first_covered(keys, pattern@, k);
                lemma_first_covered_unique(keys, pattern@, c, address@);
            }
            return Some(slice_to_vec(address));
        }
        None
    }

    /// Checks a wildcard pattern for a duplicate and for conflicts with other patterns and
    /// with exact addresses.
    pub fn get_wildcard(&self, pattern: &[u8]) -> (r: LookupResult)
        requires
            self@.well_formed(),
            valid_pattern(pattern@),
            has_star(pattern@),
        ensures
            r@ == self@.wildcard_obstacle(pattern@),
            r matches LookupResult::Conflict(k) ==> self@.blocks(k@, pattern@) && (prefix_match(
                self@.prefix.dom(),
                pattern@,
                true,
            ) is Some ==> self@.prefix.contains_key(k@)) && (!has_star(k@) ==> is_first_covered(
                self@.exact.dom(),
                pattern@,
                k@,
            )),
    {
        if let Some(target) = self.get_entry(pattern) {
            return LookupResult::Duplicate(target);
        }
        if let Some(k) = check_prefix_wildcard_conflicts(&self.prefix_wildcard_tree, pattern) {
            return LookupResult::Conflict(k);
        }
        proof {
            lemma_single_match(self@.singles, pattern@, true);
        }
        if let Some(i) = self.find_single_match(pattern, true) {
            assert(self@.singles[i as int].0 == self.single_wildcards@[i as int].0@);
            return LookupResult::Conflict(slice_to_vec(self.single_wildcards[i].0.as_slice()));
        }
        match self.find_covered_address(pattern) {
            Some(k) => LookupResult::Conflict(k),
            None => LookupResult::NotFound,
        }
    }

    /// Adds a route from `address` to `target`.
    pub fn insert(&mut self, address: &[u8], target: RouteTarget)
        ensures
            final(self)@ == old(self)@.bind(address@, target),
    {
        if !contains_star(address) {
            radix_insert(&mut self.exact_tree, address, target);
        } else if has_starstar_end(address) {
            radix_insert(&mut self.prefix_wildcard_tree, address, target);
        } else {
            self.single_wildcards.push((slice_to_vec(address), target));
        }
        assert(self@.singles =~= old(self)@.bind(address@, target).singles);
        assert(self@ =~= old(self)@.bind(address@, target));
    }

    /// Removes the route that is registered under exactly `address`.
    pub fn remove(&mut self, address: &[u8])
        ensures
            final(self)@ == old(self)@.unbind(address@),
    {
        if !contains_star(address) {
            radix_remove(&mut self.exact_tree, address);
        } else if has_starstar_end(address) {
            radix_remove(&mut self.prefix_wildcard_tree, address);
        } else if let Some(i) = self.find_single(address) {
            self.single_wildcards.remove(i);
        }
        assert(self@.singles =~= old(self)@.unbind(address@).singles);
        assert(self@ =~= old(self)@.unbind(address@));
    }

    /// Finds the target that messages to `address` go to.
    pub fn lookup(&self, address: &[u8]) -> (r: Option<RouteTarget>)
        requires
            self@.well_formed(),
        ensures
            r == self@.route_of(address@),
    {
        if let Some(target) = radix_get(&self.exact_tree, address) {
            return Some(target);
        }
        if let Some((_k, target)) = find_prefix_match(&self.prefix_wildcard_tree, address, false) {
            return Some(target);
        }
        match self.find_single_match(address, false) {
            Some(i) => Some(self.single_wildcards[i].1),
            None => None,
        }
    }
}

} // verus!
