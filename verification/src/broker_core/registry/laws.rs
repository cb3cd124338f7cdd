//! What holds of the routes as a whole: every address has at most one recipient, and
//! registering, unregistering and looking up agree with each other.

use vstd::prelude::*;
use vstd::utf8::valid_utf8;

use super::pattern::{
    covers, has_star, overlap, segments, star, starstar, valid_pattern,
};
use super::routing::RouteTarget;
use super::segments::{
    law_conflict_means_common_address, lemma_candidate_covers, lemma_covers_overlap,
    lemma_lex_reflexive, lemma_overlap_symmetric, no_empty_segment, prefix_candidate,
    static_prefix,
};
use super::table::{
    candidate_in, covered_address, ends_with_starstar, is_first_match, match_under, matches_key,
    prefix_match,
    single_entry, single_match, single_remove, Obstacle, Routes,
};

verus! {

// ---------------------------------------------------------------------------------------
// Single wildcards
// ---------------------------------------------------------------------------------------

/// What is found among the single wildcards matches, and nothing is found only if none does.
pub proof fn lemma_single_match(
    singles: Seq<(Seq<u8>, RouteTarget)>,
    target: Seq<u8>,
    both: bool,
)
    ensures
        match single_match(singles, target, both) {
            None => forall|i: int|
                #![trigger singles[i]]
                0 <= i < singles.len() ==> !matches_key(singles[i].0, target, both),
            Some(found) => matches_key(found.0, target, both) && exists|i: int|
                #![trigger singles[i]]
                0 <= i < singles.len() && singles[i] == found,
        },
    decreases singles.len(),
{
    if singles.len() > 0 {
        let tail = singles.skip(1);
        lemma_single_match(tail, target, both);
        if matches_key(singles[0].0, target, both) {
            assert(singles[0] == single_match(singles, target, both)->0);
        } else {
            match single_match(tail, target, both) {
                None => {
                    assert forall|i: int|
                        #![trigger singles[i]]
                        0 <= i < singles.len() implies !matches_key(singles[i].0, target, both) by {
                        if i > 0 {
                            assert(tail[i - 1] == singles[i]);
                        }
                    }
                },
                Some(found) => {
                    let i = choose|i: int|
                        #![trigger tail[i]]
                        0 <= i < tail.len() && tail[i] == found;
                    assert(singles[i + 1] == found);
                },
            }
        }
    }
}

/// What is found under exactly a pattern is registered under it, and removing it takes out
/// that one entry.
pub proof fn lemma_single_entry(singles: Seq<(Seq<u8>, RouteTarget)>, pattern: Seq<u8>)
    ensures
        match single_entry(singles, pattern) {
            None => {
                &&& forall|i: int|
                    #![trigger singles[i]]
                    0 <= i < singles.len() ==> singles[i].0 != pattern
                &&& single_remove(singles, pattern) == singles
            },
            Some(target) => exists|i: int|
                #![trigger singles[i]]
                0 <= i < singles.len() && singles[i] == (pattern, target) && single_remove(
                    singles,
                    pattern,
                ) == singles.remove(i) && (forall|j: int|
                    #![trigger singles[j]]
                    0 <= j < i ==> singles[j].0 != pattern),
        },
    decreases singles.len(),
{
    if singles.len() > 0 {
        let tail = singles.skip(1);
        lemma_single_entry(tail, pattern);
        if singles[0].0 == pattern {
            assert(singles.remove(0) =~= singles.skip(1));
            assert(singles[0] == (pattern, singles[0].1));
        } else {
            match single_entry(tail, pattern) {
                None => {
                    assert forall|i: int|
                        #![trigger singles[i]]
                        0 <= i < singles.len() implies singles[i].0 != pattern by {
                        if i > 0 {
                            assert(tail[i - 1] == singles[i]);
                        }
                    }
                    assert(seq![singles[0]] + tail =~= singles);
                },
                Some(target) => {
                    let i = choose|i: int|
                        #![trigger tail[i]]
                        0 <= i < tail.len() && tail[i] == (pattern, target) && single_remove(
                            tail,
                            pattern,
                        ) == tail.remove(i) && (forall|j: int|
                            #![trigger tail[j]]
                            0 <= j < i ==> tail[j].0 != pattern);
                    assert(singles[i + 1] == (pattern, target));
                    assert(seq![singles[0]] + tail.remove(i) =~= singles.remove(i + 1));
                    assert forall|j: int|
                        #![trigger singles[j]]
                        0 <= j < i + 1 implies singles[j].0 != pattern by {
                        if j > 0 {
                            assert(tail[j - 1] == singles[j]);
                        }
                    }
                },
            }
        }
    }
}

// ---------------------------------------------------------------------------------------
// What a pattern covers
// ---------------------------------------------------------------------------------------

/// Whether the first `n` segments of an address are those of a pattern, where `*` stands for
/// any one segment.
pub open spec fn leading_match(p: Seq<Seq<u8>>, t: Seq<Seq<u8>>, n: int) -> bool {
    forall|i: int| #![trigger p[i], t[i]] 0 <= i < n ==> p[i] == star() || p[i] == t[i]
}

/// `*` matches exactly one segment and a final `**` any number of trailing segments, none
/// included: without `**` a pattern covers the addresses with as many segments that match its
/// own one by one; with it, those whose leading segments match all of its other segments.
pub proof fn law_what_a_pattern_covers(pattern: Seq<u8>, address: Seq<u8>)
    requires
        valid_pattern(pattern),
    ensures
        ({
            let p = segments(pattern);
            let t = segments(address);
            let n = p.len() - 1;
            &&& p.last() == starstar() ==> (covers(p, t) <==> t.len() >= n && leading_match(
                p,
                t,
                n,
            ))
            &&& p.last() != starstar() ==> (covers(p, t) <==> t.len() == p.len() && leading_match(
                p,
                t,
                p.len() as int,
            ))
        }),
{
    lemma_covers_leading(segments(pattern), segments(address));
}

proof fn lemma_covers_leading(p: Seq<Seq<u8>>, t: Seq<Seq<u8>>)
    requires
        p.len() > 0,
        forall|i: int| 0 <= i < p.len() - 1 ==> #[trigger] p[i] != starstar(),
    ensures
        p.last() == starstar() ==> (covers(p, t) <==> t.len() >= p.len() - 1 && leading_match(
            p,
            t,
            p.len() - 1,
        )),
        p.last() != starstar() ==> (covers(p, t) <==> t.len() == p.len() && leading_match(
            p,
            t,
            p.len() as int,
        )),
    decreases p.len(),
{
    if p[0] != starstar() && t.len() > 0 {
        let ps = p.skip(1);
        let ts = t.skip(1);
        let n: int = if p.last() == starstar() {
            p.len() - 1
        } else {
            p.len() as int
        };
        if ps.len() > 0 {
            assert forall|i: int| 0 <= i < ps.len() - 1 implies #[trigger] ps[i] != starstar() by {
                assert(ps[i] == p[i + 1]);
            }
            lemma_covers_leading(ps, ts);
            assert(ps.last() == p.last());
            if t.len() >= n && leading_match(p, t, n) {
                assert(n > 0 ==> p[0] == star() || p[0] == t[0]);
                assert forall|i: int|
                    #![trigger ps[i], ts[i]]
                    0 <= i < n - 1 implies ps[i] == star() || ps[i] == ts[i] by {
                    assert(ps[i] == p[i + 1] && ts[i] == t[i + 1]);
                }
            }
            if t.len() >= n && (p[0] == star() || p[0] == t[0]) && leading_match(
                ps,
                ts,
                n - 1,
            ) {
                assert forall|i: int|
                    #![trigger p[i], t[i]]
                    0 <= i < n implies p[i] == star() || p[i] == t[i] by {
                    if i > 0 {
                        assert(ps[i - 1] == p[i] && ts[i - 1] == t[i]);
                    }
                }
            }
        } else {
            assert(covers(ps, ts) == (ts.len() == 0));
            if leading_match(p, t, n) {
                assert(n > 0 ==> p[0] == star() || p[0] == t[0]);
            }
        }
    }
}

// ---------------------------------------------------------------------------------------
// One recipient per address
// ---------------------------------------------------------------------------------------

/// Whether a route that is registered leads from `address` to `target`: the address itself
/// is registered for it, or a wildcard that covers it is.
pub open spec fn leads(routes: Routes, address: Seq<u8>, target: RouteTarget) -> bool {
    ||| routes.exact.contains_key(address) && routes.exact[address] == target
    ||| exists|p: Seq<u8>|
        #![trigger routes.has_wildcard(p, target)]
        routes.has_wildcard(p, target) && covers(segments(p), segments(address))
}

proof fn lemma_two_covering(routes: Routes, address: Seq<u8>, p: Seq<u8>, q: Seq<u8>)
    requires
        routes.inv(),
        covers(segments(p), segments(address)),
        covers(segments(q), segments(address)),
    ensures
        overlap(segments(p), segments(q)),
        overlap(segments(q), segments(p)),
{
    lemma_covers_overlap(segments(p), segments(q), segments(address));
    lemma_overlap_symmetric(segments(p), segments(q));
}

/// Every address has at most one recipient: the wildcards that cover it are all the
/// same one, and none does if the address itself is registered.
pub proof fn law_one_recipient(routes: Routes, address: Seq<u8>)
    requires
        routes.inv(),
    ensures
        forall|p: Seq<u8>, q: Seq<u8>, s: RouteTarget, t: RouteTarget|
            #![trigger routes.has_wildcard(p, s), routes.has_wildcard(q, t)]
            routes.has_wildcard(p, s) && routes.has_wildcard(q, t) && covers(
                segments(p),
                segments(address),
            ) && covers(segments(q), segments(address)) ==> p == q && s == t,
        routes.exact.contains_key(address) ==> forall|p: Seq<u8>, s: RouteTarget|
            #![trigger routes.has_wildcard(p, s)]
            routes.has_wildcard(p, s) ==> !covers(segments(p), segments(address)),
        forall|s: RouteTarget, t: RouteTarget|
            #![trigger leads(routes, address, s), leads(routes, address, t)]
            leads(routes, address, s) && leads(routes, address, t) ==> s == t,
{
    assert forall|p: Seq<u8>, q: Seq<u8>, s: RouteTarget, t: RouteTarget|
        #![trigger routes.has_wildcard(p, s), routes.has_wildcard(q, t)]
        routes.has_wildcard(p, s) && routes.has_wildcard(q, t) && covers(
            segments(p),
            segments(address),
        ) && covers(segments(q), segments(address)) implies p == q && s == t by {
        lemma_two_covering(routes, address, p, q);
        let in_prefix_p = routes.prefix.contains_key(p) && routes.prefix[p] == s;
        let in_prefix_q = routes.prefix.contains_key(q) && routes.prefix[q] == t;
        if in_prefix_p && in_prefix_q {
        } else if in_prefix_p {
            let j = choose|j: int| 0 <= j < routes.singles.len() && routes.singles[j] == (q, t);
            assert(routes.singles[j] == (q, t));
        } else if in_prefix_q {
            let i = choose|i: int| 0 <= i < routes.singles.len() && routes.singles[i] == (p, s);
            assert(routes.singles[i] == (p, s));
        } else {
            let i = choose|i: int| 0 <= i < routes.singles.len() && routes.singles[i] == (p, s);
            let j = choose|j: int| 0 <= j < routes.singles.len() && routes.singles[j] == (q, t);
            assert(routes.singles[i] == (p, s));
            assert(routes.singles[j] == (q, t));
            assert(i == j);
        }
    }
    if routes.exact.contains_key(address) {
        assert forall|p: Seq<u8>, s: RouteTarget|
            #![trigger routes.has_wildcard(p, s)]
            routes.has_wildcard(p, s) implies !covers(segments(p), segments(address)) by {
            if !(routes.prefix.contains_key(p) && routes.prefix[p] == s) {
                let i = choose|i: int| 0 <= i < routes.singles.len() && routes.singles[i] == (p, s);
                assert(routes.singles[i] == (p, s));
            }
        }
    }
}

/// Looking up an address finds the one recipient that a registered route leads to,
/// and finds none only if no route leads anywhere.
pub proof fn law_lookup_finds_the_recipient(routes: Routes, address: Seq<u8>)
    requires
        routes.inv(),
    ensures
        forall|t: RouteTarget|
            #![trigger leads(routes, address, t)]
            leads(routes, address, t) <==> routes.route_of(address) == Some(t),
{
    law_one_recipient(routes, address);
    let keys = routes.prefix.dom();
    let found = prefix_match(keys, address, false);
    if !routes.exact.contains_key(address) {
        if found is Some {
            let k0 = choose|k: Seq<u8>| #[trigger]
                keys.contains(k) && matches_key(k, address, false);
            assert(routes.prefix.contains_key(k0));
            assert(routes.has_wildcard(k0, routes.prefix[k0]));
            assert forall|k: Seq<u8>| #[trigger]
                keys.contains(k) && matches_key(k, address, false) implies k == k0 by {
                assert(routes.prefix.contains_key(k));
                lemma_two_covering(routes, address, k, k0);
            }
            lemma_sole_match_is_first(routes, address, k0);
            let c = choose|k: Seq<u8>| is_first_match(keys, address, false, k);
            assert(is_first_match(keys, address, false, c));
            lemma_first_match_matches(routes, address, c);
            assert(c == k0);
            assert(routes.route_of(address) == Some(routes.prefix[k0]));
            assert(leads(routes, address, routes.prefix[k0]));
        } else {
            lemma_single_match(routes.singles, address, false);
            match single_match(routes.singles, address, false) {
                Some(entry) => {
                    let i = choose|i: int|
                        #![trigger routes.singles[i]]
                        0 <= i < routes.singles.len() && routes.singles[i] == entry;
                    assert(routes.singles.contains((entry.0, entry.1)));
                    assert(routes.has_wildcard(entry.0, entry.1));
                    assert(leads(routes, address, entry.1));
                },
                None => {
                    assert forall|t: RouteTarget|
                        #![trigger leads(routes, address, t)]
                        !leads(routes, address, t) by {
                        if leads(routes, address, t) {
                            let p = choose|p: Seq<u8>|
                                #![trigger routes.has_wildcard(p, t)]
                                routes.has_wildcard(p, t) && covers(segments(p), segments(address));
                            if routes.prefix.contains_key(p) && routes.prefix[p] == t {
                                assert(keys.contains(p));
                                assert(matches_key(p, address, false));
                            } else {
                                let i = choose|i: int|
                                    0 <= i < routes.singles.len() && routes.singles[i] == (p, t);
                                assert(routes.singles[i] == (p, t));
                            }
                        }
                    }
                },
            }
        }
    } else {
        assert(leads(routes, address, routes.exact[address]));
    }
}

/// What is found first among the prefix wildcards of valid routes is one of them and
/// matches.
pub proof fn lemma_first_match_matches(routes: Routes, address: Seq<u8>, k: Seq<u8>)
    requires
        routes.well_formed(),
        is_first_match(routes.prefix.dom(), address, false, k),
    ensures
        routes.prefix.contains_key(k),
        matches_key(k, address, false),
{
    let keys = routes.prefix.dom();
    if exists|e: int| candidate_in(keys, address, e) {
        let e = choose|e: int|
            #![trigger candidate_in(keys, address, e)]
            candidate_in(keys, address, e) && k == prefix_candidate(address, e) && (forall|d: int|
                d < e ==> !candidate_in(keys, address, d));
        assert(routes.prefix.contains_key(k));
        lemma_candidate_covers(address, e);
    }
}

proof fn lemma_sole_match_is_first(routes: Routes, address: Seq<u8>, k: Seq<u8>)
    requires
        routes.well_formed(),
        routes.prefix.contains_key(k),
        matches_key(k, address, false),
        forall|j: Seq<u8>| #[trigger]
            routes.prefix.dom().contains(j) && matches_key(j, address, false) ==> j == k,
    ensures
        is_first_match(routes.prefix.dom(), address, false, k),
{
    let keys = routes.prefix.dom();
    if exists|e: int| candidate_in(keys, address, e) {
        let e = choose|e: int| candidate_in(keys, address, e);
        assert forall|d: int| candidate_in(keys, address, d) implies prefix_candidate(address, d)
            == k && d == e by {
            assert(routes.prefix.contains_key(prefix_candidate(address, d)));
            lemma_candidate_covers(address, d);
            assert(routes.prefix.contains_key(prefix_candidate(address, e)));
            lemma_candidate_covers(address, e);
            assert(prefix_candidate(address, d).len() == d + 3);
            assert(prefix_candidate(address, e).len() == e + 3);
        }
        assert(candidate_in(keys, address, e) && k == prefix_candidate(address, e));
    } else {
        lemma_lex_reflexive(k);
        assert(Seq::<u8>::empty() =~= k.subrange(0, 0));
        assert(match_under(keys, address, false, Seq::empty(), k));
        if exists|j: Seq<u8>| match_under(keys, address, false, static_prefix(address), j) {
            let j = choose|j: Seq<u8>|
                match_under(keys, address, false, static_prefix(address), j);
            assert(keys.contains(j) && matches_key(j, address, false));
        }
    }
}

// ---------------------------------------------------------------------------------------
// Registering
// ---------------------------------------------------------------------------------------

/// Whether `address` may be registered as far as its own form goes.
pub open spec fn registrable(address: Seq<u8>) -> bool {
    valid_utf8(address) && (has_star(address) ==> valid_pattern(address))
}

/// Nothing in the way of a pattern means that no registered pattern overlaps it and that it
/// covers no registered address.
pub proof fn lemma_free_wildcard(routes: Routes, pattern: Seq<u8>)
    requires
        routes.wildcard_obstacle(pattern) is Free,
    ensures
        routes.entry(pattern) is None,
        forall|k: Seq<u8>| #[trigger]
            routes.prefix.contains_key(k) ==> !overlap(segments(k), segments(pattern)) && !overlap(
                segments(pattern),
                segments(k),
            ),
        forall|i: int|
            #![trigger routes.singles[i]]
            0 <= i < routes.singles.len() ==> !overlap(
                segments(routes.singles[i].0),
                segments(pattern),
            ) && !overlap(segments(pattern), segments(routes.singles[i].0)),
        forall|a: Seq<u8>| #[trigger]
            routes.exact.contains_key(a) ==> !covers(segments(pattern), segments(a)),
{
    lemma_single_match(routes.singles, pattern, true);
    assert forall|k: Seq<u8>| #[trigger] routes.prefix.contains_key(k) implies !overlap(
        segments(k),
        segments(pattern),
    ) && !overlap(segments(pattern), segments(k)) by {
        assert(routes.prefix.dom().contains(k));
        assert(!matches_key(k, pattern, true));
        lemma_overlap_symmetric(segments(k), segments(pattern));
    }
    assert forall|i: int| #![trigger routes.singles[i]] 0 <= i < routes.singles.len() implies !overlap(
        segments(routes.singles[i].0),
        segments(pattern),
    ) && !overlap(segments(pattern), segments(routes.singles[i].0)) by {
        lemma_overlap_symmetric(segments(routes.singles[i].0), segments(pattern));
    }
    assert forall|a: Seq<u8>| #[trigger] routes.exact.contains_key(a) implies !covers(
        segments(pattern),
        segments(a),
    ) by {
        assert(routes.exact.dom().contains(a));
        assert(covered_address(routes.exact.dom(), pattern) is None);
        assert(!matches_key(pattern, a, false));
    }
}

/// Nothing in the way of an exact address means that it is not registered and that no
/// registered pattern covers it.
pub proof fn lemma_free_exact(routes: Routes, address: Seq<u8>)
    requires
        routes.exact_obstacle(address) is Free,
    ensures
        !routes.exact.contains_key(address),
        forall|k: Seq<u8>| #[trigger]
            routes.prefix.contains_key(k) ==> !covers(segments(k), segments(address)),
        forall|i: int|
            #![trigger routes.singles[i]]
            0 <= i < routes.singles.len() ==> !covers(
                segments(routes.singles[i].0),
                segments(address),
            ),
{
    lemma_single_match(routes.singles, address, false);
    assert forall|k: Seq<u8>| #[trigger] routes.prefix.contains_key(k) implies !covers(
        segments(k),
        segments(address),
    ) by {
        assert(routes.prefix.dom().contains(k));
        assert(!matches_key(k, address, false));
    }
}

/// Registering a free address keeps the invariant: exclusive binding is never lost.
pub proof fn law_register_keeps_exclusive_binding(
    routes: Routes,
    address: Seq<u8>,
    target: RouteTarget,
)
    requires
        routes.inv(),
        registrable(address),
        routes.obstacle(address) is Free,
    ensures
        routes.bind(address, target).inv(),
{
    let after = routes.bind(address, target);
    if !has_star(address) {
        lemma_free_exact(routes, address);
        assert(after.exclusive());
    } else {
        lemma_free_wildcard(routes, address);
        if ends_with_starstar(address) {
            assert(after.exclusive());
        } else {
            assert forall|i: int|
                #![trigger after.singles[i]]
                0 <= i < after.singles.len() implies after.singles[i] == (if i
                < routes.singles.len() {
                routes.singles[i]
            } else {
                (address, target)
            }) by {}
            assert forall|i: int, j: int|
                #![trigger after.singles[i], after.singles[j]]
                0 <= i < after.singles.len() && 0 <= j < after.singles.len() && i != j implies !overlap(
                segments(after.singles[i].0),
                segments(after.singles[j].0),
            ) by {
                if i < routes.singles.len() && j < routes.singles.len() {
                    assert(after.singles[i] == routes.singles[i]);
                    assert(after.singles[j] == routes.singles[j]);
                } else if i < routes.singles.len() {
                    assert(after.singles[i] == routes.singles[i]);
                } else {
                    assert(after.singles[j] == routes.singles[j]);
                }
            }
            assert(after.exclusive());
            assert(after.well_formed());
        }
    }
}

/// Unregistering keeps the invariant.
pub proof fn law_unregister_keeps_exclusive_binding(routes: Routes, address: Seq<u8>)
    requires
        routes.inv(),
    ensures
        routes.unbind(address).inv(),
{
    let after = routes.unbind(address);
    if !has_star(address) {
    } else if ends_with_starstar(address) {
    } else {
        lemma_single_entry(routes.singles, address);
        match single_entry(routes.singles, address) {
            None => {},
            Some(target) => {
                let m = choose|i: int|
                    #![trigger routes.singles[i]]
                    0 <= i < routes.singles.len() && routes.singles[i] == (address, target)
                        && single_remove(routes.singles, address) == routes.singles.remove(i) && (
                    forall|j: int|
                        #![trigger routes.singles[j]]
                        0 <= j < i ==> routes.singles[j].0 != address);
                assert forall|i: int|
                    #![trigger after.singles[i]]
                    0 <= i < after.singles.len() implies after.singles[i] == (if i < m {
                    routes.singles[i]
                } else {
                    routes.singles[i + 1]
                }) by {}
                assert forall|i: int, j: int|
                    #![trigger after.singles[i], after.singles[j]]
                    0 <= i < after.singles.len() && 0 <= j < after.singles.len() && i
                        != j implies !overlap(
                    segments(after.singles[i].0),
                    segments(after.singles[j].0),
                ) by {
                    let x = if i < m {
                        i
                    } else {
                        i + 1
                    };
                    let y = if j < m {
                        j
                    } else {
                        j + 1
                    };
                    assert(after.singles[i] == routes.singles[x]);
                    assert(after.singles[j] == routes.singles[y]);
                }
                assert(after.exclusive());
                assert(after.well_formed());
            },
        }
    }
}

// ---------------------------------------------------------------------------------------
// What registering and unregistering do to lookups
// ---------------------------------------------------------------------------------------

/// Whether a message to the address `a` goes to whoever is registered under `x`: `x` is that
/// address, or a pattern that covers it.
pub open spec fn reaches(x: Seq<u8>, a: Seq<u8>) -> bool {
    if has_star(x) {
        covers(segments(x), segments(a))
    } else {
        x == a
    }
}

proof fn lemma_overlap_self(p: Seq<Seq<u8>>)
    ensures
        overlap(p, p),
    decreases p.len(),
{
    if p.len() > 0 {
        lemma_overlap_self(p.skip(1));
    }
}

/// A registered wildcard is the entry for its own pattern, and the other way round.
pub proof fn lemma_wildcard_entry(routes: Routes, pattern: Seq<u8>, target: RouteTarget)
    requires
        routes.inv(),
        has_star(pattern),
    ensures
        routes.has_wildcard(pattern, target) <==> routes.entry(pattern) == Some(target),
{
    lemma_single_entry(routes.singles, pattern);
    lemma_overlap_self(segments(pattern));
    if routes.has_wildcard(pattern, target) {
        if routes.prefix.contains_key(pattern) && routes.prefix[pattern] == target {
        } else {
            let i = choose|i: int|
                0 <= i < routes.singles.len() && routes.singles[i] == (pattern, target);
            assert(routes.singles[i] == (pattern, target));
            let found = single_entry(routes.singles, pattern);
            assert(found is Some);
            let j = choose|j: int|
                #![trigger routes.singles[j]]
                0 <= j < routes.singles.len() && routes.singles[j] == (pattern, found->0)
                    && single_remove(routes.singles, pattern) == routes.singles.remove(j) && (
                forall|m: int|
                    #![trigger routes.singles[m]]
                    0 <= m < j ==> routes.singles[m].0 != pattern);
            assert(i == j);
        }
    }
    if routes.entry(pattern) == Some(target) {
        if !ends_with_starstar(pattern) {
            let j = choose|j: int|
                #![trigger routes.singles[j]]
                0 <= j < routes.singles.len() && routes.singles[j] == (pattern, target)
                    && single_remove(routes.singles, pattern) == routes.singles.remove(j) && (
                forall|m: int|
                    #![trigger routes.singles[m]]
                    0 <= m < j ==> routes.singles[m].0 != pattern);
            assert(routes.singles.contains((pattern, target)));
        }
    }
}

/// A route leads somewhere exactly if an entry reaches the address.
pub proof fn lemma_leads_by_entry(routes: Routes, address: Seq<u8>, target: RouteTarget)
    requires
        routes.inv(),
    ensures
        leads(routes, address, target) <==> exists|x: Seq<u8>|
            #![trigger routes.entry(x)]
            routes.entry(x) == Some(target) && reaches(x, address),
{
    if leads(routes, address, target) {
        if routes.exact.contains_key(address) && routes.exact[address] == target {
            assert(routes.entry(address) == Some(target));
        } else {
            let p = choose|p: Seq<u8>|
                #![trigger routes.has_wildcard(p, target)]
                routes.has_wildcard(p, target) && covers(segments(p), segments(address));
            if !(routes.prefix.contains_key(p) && routes.prefix[p] == target) {
                let i = choose|i: int|
                    0 <= i < routes.singles.len() && routes.singles[i] == (p, target);
                assert(routes.singles[i] == (p, target));
            }
            lemma_wildcard_entry(routes, p, target);
            assert(routes.entry(p) == Some(target));
        }
    }
    if exists|x: Seq<u8>|
        #![trigger routes.entry(x)]
        routes.entry(x) == Some(target) && reaches(x, address) {
        let x = choose|x: Seq<u8>|
            #![trigger routes.entry(x)]
            routes.entry(x) == Some(target) && reaches(x, address);
        if has_star(x) {
            lemma_wildcard_entry(routes, x, target);
        }
    }
}

/// Registering makes an entry for the address and changes no other.
pub proof fn lemma_bind_entry(
    routes: Routes,
    address: Seq<u8>,
    target: RouteTarget,
    x: Seq<u8>,
)
    requires
        routes.entry(address) is None,
    ensures
        routes.bind(address, target).entry(x) == (if x == address {
            Some(target)
        } else {
            routes.entry(x)
        }),
{
    let after = routes.bind(address, target);
    if has_star(address) && !ends_with_starstar(address) {
        lemma_single_entry_push(routes.singles, address, target, x);
    }
}

proof fn lemma_single_entry_push(
    singles: Seq<(Seq<u8>, RouteTarget)>,
    address: Seq<u8>,
    target: RouteTarget,
    x: Seq<u8>,
)
    ensures
        single_entry(singles.push((address, target)), x) == (match single_entry(singles, x) {
            Some(t) => Some(t),
            None => if x == address {
                Some(target)
            } else {
                None
            },
        }),
    decreases singles.len(),
{
    let longer = singles.push((address, target));
    if singles.len() == 0 {
        assert(longer.skip(1) =~= Seq::empty());
        assert(longer[0] == (address, target));
        assert(single_entry(longer.skip(1), x) is None);
    } else {
        assert(longer[0] == singles[0]);
        assert(longer.skip(1) =~= singles.skip(1).push((address, target)));
        lemma_single_entry_push(singles.skip(1), address, target, x);
    }
}

/// Unregistering takes out the entry for the address and changes no other.
pub proof fn lemma_unbind_entry(routes: Routes, address: Seq<u8>, x: Seq<u8>)
    requires
        routes.inv(),
    ensures
        routes.unbind(address).entry(x) == (if x == address {
            None
        } else {
            routes.entry(x)
        }),
{
    let after = routes.unbind(address);
    if has_star(address) && !ends_with_starstar(address) {
        assert forall|i: int, j: int|
            #![trigger routes.singles[i], routes.singles[j]]
            0 <= i < j < routes.singles.len() implies routes.singles[i].0
            != routes.singles[j].0 by {
            lemma_overlap_self(segments(routes.singles[i].0));
        }
        lemma_single_entry_remove(routes.singles, address, x);
    }
}

proof fn lemma_single_entry_remove(
    singles: Seq<(Seq<u8>, RouteTarget)>,
    address: Seq<u8>,
    x: Seq<u8>,
)
    requires
        forall|i: int, j: int|
            #![trigger singles[i], singles[j]]
            0 <= i < j < singles.len() ==> singles[i].0 != singles[j].0,
    ensures
        single_entry(single_remove(singles, address), x) == (if x == address {
            None
        } else {
            single_entry(singles, x)
        }),
    decreases singles.len(),
{
    if singles.len() > 0 {
        let tail = singles.skip(1);
        assert forall|i: int, j: int|
            #![trigger tail[i], tail[j]]
            0 <= i < j < tail.len() implies tail[i].0 != tail[j].0 by {
            assert(tail[i] == singles[i + 1]);
            assert(tail[j] == singles[j + 1]);
        }
        lemma_single_entry_remove(tail, address, x);
        if singles[0].0 == address {
            if x == address {
                lemma_single_entry(tail, x);
                if single_entry(tail, x) is Some {
                    let i = choose|i: int|
                        #![trigger tail[i]]
                        0 <= i < tail.len() && tail[i] == (x, single_entry(tail, x)->0)
                            && single_remove(tail, x) == tail.remove(i) && (forall|j: int|
                            #![trigger tail[j]]
                            0 <= j < i ==> tail[j].0 != x);
                    assert(tail[i] == singles[i + 1]);
                    assert(singles[0].0 != singles[i + 1].0);
                }
            }
        } else {
            let removed = single_remove(singles, address);
            assert(removed[0] == singles[0]);
            assert(removed.skip(1) =~= single_remove(tail, address));
        }
    }
}

/// What was registered is looked up: once `address` is registered for `target`, messages to
/// every address that it reaches go to `target`, and all others go where they went
/// before.
pub proof fn law_registered_is_looked_up(
    routes: Routes,
    address: Seq<u8>,
    target: RouteTarget,
    a: Seq<u8>,
)
    requires
        routes.inv(),
        registrable(address),
        routes.obstacle(address) is Free,
    ensures
        routes.bind(address, target).route_of(a) == (if reaches(address, a) {
            Some(target)
        } else {
            routes.route_of(a)
        }),
{
    let after = routes.bind(address, target);
    law_register_keeps_exclusive_binding(routes, address, target);
    law_lookup_finds_the_recipient(routes, a);
    law_lookup_finds_the_recipient(after, a);
    if has_star(address) {
        lemma_free_wildcard(routes, address);
    } else {
        lemma_free_exact(routes, address);
    }
    assert(routes.entry(address) is None);
    lemma_bind_entry(routes, address, target, address);
    if reaches(address, a) {
        lemma_leads_by_entry(after, a, target);
        assert(after.entry(address) == Some(target));
        assert(leads(after, a, target));
    } else {
        assert forall|t: RouteTarget| leads(after, a, t) == leads(routes, a, t) by {
            lemma_leads_by_entry(after, a, t);
            lemma_leads_by_entry(routes, a, t);
            if leads(after, a, t) {
                let x = choose|x: Seq<u8>|
                    #![trigger after.entry(x)]
                    after.entry(x) == Some(t) && reaches(x, a);
                lemma_bind_entry(routes, address, target, x);
                assert(routes.entry(x) == Some(t));
            }
            if leads(routes, a, t) {
                let x = choose|x: Seq<u8>|
                    #![trigger routes.entry(x)]
                    routes.entry(x) == Some(t) && reaches(x, a);
                lemma_bind_entry(routes, address, target, x);
                assert(after.entry(x) == Some(t));
            }
        }
        lemma_same_route(after, routes, a);
    }
}

proof fn lemma_same_route(one: Routes, other: Routes, a: Seq<u8>)
    requires
        one.inv(),
        other.inv(),
        forall|t: RouteTarget| leads(one, a, t) == leads(other, a, t),
    ensures
        one.route_of(a) == other.route_of(a),
{
    law_lookup_finds_the_recipient(one, a);
    law_lookup_finds_the_recipient(other, a);
    match one.route_of(a) {
        Some(t) => {
            assert(leads(one, a, t));
            assert(leads(other, a, t));
        },
        None => {
            match other.route_of(a) {
                Some(t) => {
                    assert(leads(other, a, t));
                    assert(leads(one, a, t));
                },
                None => {},
            }
        },
    }
}

/// What is unregistered is no longer looked up: messages to an address that the
/// registration reached went to its target and now go nowhere, and all others go where they
/// went before.
pub proof fn law_unregistered_is_gone(routes: Routes, address: Seq<u8>, a: Seq<u8>)
    requires
        routes.inv(),
        routes.entry(address) is Some,
    ensures
        reaches(address, a) ==> routes.route_of(a) == routes.entry(address) && routes.unbind(
            address,
        ).route_of(a) is None,
        !reaches(address, a) ==> routes.unbind(address).route_of(a) == routes.route_of(a),
{
    let after = routes.unbind(address);
    law_unregister_keeps_exclusive_binding(routes, address);
    law_lookup_finds_the_recipient(routes, a);
    law_lookup_finds_the_recipient(after, a);
    let target = routes.entry(address)->0;
    if reaches(address, a) {
        lemma_leads_by_entry(routes, a, target);
        assert(routes.entry(address) == Some(target));
        assert(leads(routes, a, target));
        if after.route_of(a) is Some {
            let t = after.route_of(a)->0;
            assert(leads(after, a, t));
            lemma_leads_by_entry(after, a, t);
            let x = choose|x: Seq<u8>|
                #![trigger after.entry(x)]
                after.entry(x) == Some(t) && reaches(x, a);
            lemma_unbind_entry(routes, address, x);
            assert(x != address);
            lemma_reached_once(routes, a, x, address);
        }
    } else {
        assert forall|t: RouteTarget| leads(after, a, t) == leads(routes, a, t) by {
            lemma_leads_by_entry(after, a, t);
            lemma_leads_by_entry(routes, a, t);
            if leads(after, a, t) {
                let x = choose|x: Seq<u8>|
                    #![trigger after.entry(x)]
                    after.entry(x) == Some(t) && reaches(x, a);
                lemma_unbind_entry(routes, address, x);
                assert(routes.entry(x) == Some(t));
            }
            if leads(routes, a, t) {
                let x = choose|x: Seq<u8>|
                    #![trigger routes.entry(x)]
                    routes.entry(x) == Some(t) && reaches(x, a);
                lemma_unbind_entry(routes, address, x);
                assert(after.entry(x) == Some(t));
            }
        }
        lemma_same_route(after, routes, a);
    }
}

proof fn lemma_reached_once(routes: Routes, a: Seq<u8>, x: Seq<u8>, y: Seq<u8>)
    requires
        routes.inv(),
        routes.entry(x) is Some,
        routes.entry(y) is Some,
        reaches(x, a),
        reaches(y, a),
    ensures
        x == y,
{
    law_one_recipient(routes, a);
    if has_star(x) {
        lemma_wildcard_entry(routes, x, routes.entry(x)->0);
    }
    if has_star(y) {
        lemma_wildcard_entry(routes, y, routes.entry(y)->0);
    }
}

/// Registering a free address and unregistering it again leaves the routes as they were.
pub proof fn law_unregister_undoes_register(
    routes: Routes,
    address: Seq<u8>,
    target: RouteTarget,
)
    requires
        routes.obstacle(address) is Free,
    ensures
        routes.bind(address, target).unbind(address) == routes,
{
    let after = routes.bind(address, target).unbind(address);
    if !has_star(address) {
        assert(after.exact =~= routes.exact);
    } else if ends_with_starstar(address) {
        assert(after.prefix =~= routes.prefix);
    } else {
        lemma_free_wildcard(routes, address);
        lemma_single_remove_push(routes.singles, address, target);
    }
    assert(after =~= routes);
}

proof fn lemma_single_remove_push(
    singles: Seq<(Seq<u8>, RouteTarget)>,
    address: Seq<u8>,
    target: RouteTarget,
)
    requires
        single_entry(singles, address) is None,
    ensures
        single_remove(singles.push((address, target)), address) == singles,
    decreases singles.len(),
{
    let longer = singles.push((address, target));
    if singles.len() == 0 {
        assert(longer.skip(1) =~= singles);
    } else {
        assert(longer[0] == singles[0]);
        assert(longer.skip(1) =~= singles.skip(1).push((address, target)));
        lemma_single_remove_push(singles.skip(1), address, target);
        assert(seq![singles[0]] + singles.skip(1) =~= singles);
    }
}

/// A second registration of an address is refused as a duplicate of the first.
pub proof fn law_registered_address_is_occupied(
    routes: Routes,
    address: Seq<u8>,
    target: RouteTarget,
)
    requires
        routes.obstacle(address) is Free,
    ensures
        routes.bind(address, target).obstacle(address) == Obstacle::Duplicate(target),
{
    if has_star(address) {
        lemma_free_wildcard(routes, address);
        lemma_bind_entry(routes, address, target, address);
    }
}

/// A registration is refused exactly if it would give some concrete address a second
/// recipient.
pub proof fn law_refused_means_second_recipient(routes: Routes, address: Seq<u8>)
    requires
        routes.inv(),
        registrable(address),
    ensures
        !(routes.obstacle(address) is Free) <==> exists|x: Seq<u8>, a: Seq<u8>|
            #![trigger routes.entry(x), reaches(address, a)]
            routes.entry(x) is Some && !has_star(a) && reaches(x, a) && reaches(address, a),
{
    if !(routes.obstacle(address) is Free) {
        lemma_refused_has_witness(routes, address);
    }
    if exists|x: Seq<u8>, a: Seq<u8>|
        #![trigger routes.entry(x), reaches(address, a)]
        routes.entry(x) is Some && !has_star(a) && reaches(x, a) && reaches(address, a) {
        let (x, a) = choose|x: Seq<u8>, a: Seq<u8>|
            #![trigger routes.entry(x), reaches(address, a)]
            routes.entry(x) is Some && !has_star(a) && reaches(x, a) && reaches(address, a);
        if routes.obstacle(address) is Free {
            let target = routes.entry(x)->0;
            law_register_keeps_exclusive_binding(routes, address, target);
            let after = routes.bind(address, target);
            if has_star(address) {
                lemma_free_wildcard(routes, address);
            } else {
                lemma_free_exact(routes, address);
            }
            lemma_bind_entry(routes, address, target, address);
            lemma_bind_entry(routes, address, target, x);
            lemma_reached_once(after, a, x, address);
        }
    }
}

proof fn lemma_shared_by(routes: Routes, x: Seq<u8>, address: Seq<u8>)
    requires
        routes.inv(),
        registrable(address),
        routes.entry(x) is Some,
        has_star(address),
        has_star(x),
        overlap(segments(x), segments(address)),
    ensures
        exists|x: Seq<u8>, a: Seq<u8>|
            #![trigger routes.entry(x), reaches(address, a)]
            routes.entry(x) is Some && !has_star(a) && reaches(x, a) && reaches(address, a),
{
    lemma_wildcard_entry(routes, x, routes.entry(x)->0);
    let t = routes.entry(x)->0;
    assert(valid_pattern(x)) by {
        if !(routes.prefix.contains_key(x) && routes.prefix[x] == t) {
            let i = choose|i: int| 0 <= i < routes.singles.len() && routes.singles[i] == (x, t);
            assert(routes.singles[i] == (x, t));
        }
    }
    law_conflict_means_common_address(x, address);
    let a = choose|a: Seq<u8>|
        #![trigger segments(a)]
        !has_star(a) && no_empty_segment(a) && covers(segments(x), segments(a)) && covers(
            segments(address),
            segments(a),
        );
    assert(reaches(x, a));
    assert(reaches(address, a));
}

proof fn lemma_refused_has_witness(routes: Routes, address: Seq<u8>)
    requires
        routes.inv(),
        registrable(address),
        !(routes.obstacle(address) is Free),
    ensures
        exists|x: Seq<u8>, a: Seq<u8>|
            #![trigger routes.entry(x), reaches(address, a)]
            routes.entry(x) is Some && !has_star(a) && reaches(x, a) && reaches(address, a),
{
    let keys = routes.prefix.dom();
    if !has_star(address) {
        if routes.exact.contains_key(address) {
            assert(routes.entry(address) is Some && reaches(address, address));
        } else if prefix_match(keys, address, false) is Some {
            let k = choose|k: Seq<u8>| #[trigger]
                keys.contains(k) && matches_key(k, address, false);
            assert(routes.prefix.contains_key(k));
            assert(routes.entry(k) is Some && reaches(k, address) && reaches(address, address));
        } else {
            lemma_single_match(routes.singles, address, false);
            let found = single_match(routes.singles, address, false)->0;
            let i = choose|i: int|
                #![trigger routes.singles[i]]
                0 <= i < routes.singles.len() && routes.singles[i] == found;
            assert(routes.singles.contains((found.0, found.1)));
            lemma_wildcard_entry(routes, found.0, found.1);
            assert(routes.entry(found.0) is Some && reaches(found.0, address) && reaches(
                address,
                address,
            ));
        }
    } else if routes.entry(address) is Some {
        lemma_overlap_self(segments(address));
        lemma_shared_by(routes, address, address);
    } else if prefix_match(keys, address, true) is Some {
        let k = choose|k: Seq<u8>| #[trigger] keys.contains(k) && matches_key(k, address, true);
        assert(routes.prefix.contains_key(k));
        lemma_shared_by(routes, k, address);
    } else if single_match(routes.singles, address, true) is Some {
        lemma_single_match(routes.singles, address, true);
        let found = single_match(routes.singles, address, true)->0;
        let i = choose|i: int|
            #![trigger routes.singles[i]]
            0 <= i < routes.singles.len() && routes.singles[i] == found;
        assert(routes.singles.contains((found.0, found.1)));
        lemma_wildcard_entry(routes, found.0, found.1);
        lemma_shared_by(routes, found.0, address);
    } else {
        let k = choose|k: Seq<u8>| #[trigger]
            routes.exact.dom().contains(k) && matches_key(address, k, false);
        assert(routes.exact.contains_key(k));
        assert(routes.entry(k) is Some && reaches(k, k) && reaches(address, k));
    }
}

// ---------------------------------------------------------------------------------------
// Every history
// ---------------------------------------------------------------------------------------

/// A change that is asked for.
pub enum Change {
    /// To register an address or a pattern.
    Register(Seq<u8>, RouteTarget),
    /// To take an address or a pattern out.
    Unregister(Seq<u8>),
}

/// The routes after a change was asked for; a registration may be refused.
pub open spec fn changed(routes: Routes, change: Change) -> Routes {
    match change {
        Change::Register(address, target) => if registrable(address) && routes.obstacle(
            address,
        ) is Free {
            routes.bind(address, target)
        } else {
            routes
        },
        Change::Unregister(address) => routes.unbind(address),
    }
}

/// The routes after all these changes were asked for, one after the other, from nothing on.
pub open spec fn history(changes: Seq<Change>) -> Routes
    decreases changes.len(),
{
    if changes.len() == 0 {
        Routes::empty()
    } else {
        changed(history(changes.drop_last()), changes.last())
    }
}

/// Whatever was asked for before, every address has at most one recipient, which is
/// the one that is looked up.
pub proof fn law_one_recipient_ever(changes: Seq<Change>, address: Seq<u8>)
    ensures
        history(changes).inv(),
        forall|s: RouteTarget, t: RouteTarget|
            #![trigger leads(history(changes), address, s), leads(history(changes), address, t)]
            leads(history(changes), address, s) && leads(history(changes), address, t) ==> s == t,
        forall|t: RouteTarget|
            #![trigger leads(history(changes), address, t)]
            leads(history(changes), address, t) <==> history(changes).route_of(address) == Some(t),
{
    lemma_history_inv(changes);
    law_one_recipient(history(changes), address);
    law_lookup_finds_the_recipient(history(changes), address);
}

proof fn lemma_history_inv(changes: Seq<Change>)
    ensures
        history(changes).inv(),
    decreases changes.len(),
{
    if changes.len() > 0 {
        let before = history(changes.drop_last());
        lemma_history_inv(changes.drop_last());
        match changes.last() {
            Change::Register(address, target) => {
                if registrable(address) && before.obstacle(address) is Free {
                    law_register_keeps_exclusive_binding(before, address, target);
                }
            },
            Change::Unregister(address) => {
                law_unregister_keeps_exclusive_binding(before, address);
            },
        }
    }
}

} // verus!
