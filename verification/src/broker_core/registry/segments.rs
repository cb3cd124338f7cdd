//! Facts about segments: joining them, the lexicographic order of keys, and where a match can
//! be found.

use vstd::prelude::*;

use super::pattern::{
    comparison, covers, first_separator, has_star, lemma_first_separator,
    lemma_first_separator_bounds, overlap, segments, star, starstar, valid_pattern, valid_segments,
    SEPARATOR, STAR,
};

verus! {

// ---------------------------------------------------------------------------------------
// Segments of a byte string
// ---------------------------------------------------------------------------------------

/// The segments of a byte string that starts with a segment and its separator.
pub proof fn lemma_segments_cons(head: Seq<u8>, tail: Seq<u8>)
    requires
        !head.contains(SEPARATOR),
    ensures
        segments(head + seq![SEPARATOR] + tail) == seq![head] + segments(tail),
{
    let s = head + seq![SEPARATOR] + tail;
    assert forall|j: int| 0 <= j < head.len() implies s[j] != SEPARATOR by {
        assert(s[j] == head[j]);
        assert(head.contains(head[j]));
    }
    assert(s[head.len() as int] == SEPARATOR);
    lemma_first_separator(s, head.len());
    assert(s.take(head.len() as int) =~= head);
    assert(s.skip(head.len() as int + 1) =~= tail);
}

/// The segments of a byte string without a separator.
pub proof fn lemma_segments_one(s: Seq<u8>)
    requires
        !s.contains(SEPARATOR),
    ensures
        segments(s) == seq![s],
{
    assert forall|j: int| 0 <= j < s.len() implies s[j] != SEPARATOR by {
        assert(s.contains(s[j]));
    }
    lemma_first_separator(s, s.len());
}

/// How a byte string falls into its first segment and the rest.
pub proof fn lemma_split(s: Seq<u8>)
    ensures
        segments(s).len() >= 1,
        !segments(s)[0].contains(SEPARATOR),
        segments(s)[0] == s.take(first_separator(s) as int),
        segments(s)[0].is_prefix_of(s),
        first_separator(s) <= s.len(),
        first_separator(s) == s.len() ==> segments(s) == seq![s] && segments(s)[0] == s,
        first_separator(s) < s.len() ==> s == segments(s)[0] + seq![SEPARATOR] + s.skip(
            first_separator(s) as int + 1,
        ) && segments(s).skip(1) == segments(s.skip(first_separator(s) as int + 1)),
{
    lemma_first_separator_bounds(s);
    let i = first_separator(s);
    assert(s.take(i as int).len() == i);
    if i == s.len() {
        assert(s.take(i as int) =~= s);
    } else {
        let tail = s.skip(i as int + 1);
        assert(segments(s) == seq![s.take(i as int)] + segments(tail));
        assert(segments(s).skip(1) =~= segments(tail));
        assert(s =~= s.take(i as int) + seq![SEPARATOR] + tail);
    }
    assert(!segments(s)[0].contains(SEPARATOR)) by {
        assert forall|j: int| 0 <= j < i implies s.take(i as int)[j] != SEPARATOR by {
            assert(s.take(i as int)[j] == s[j]);
        }
    }
}

/// A byte string holds `*` exactly if one of its segments does.
pub proof fn lemma_has_star(s: Seq<u8>)
    ensures
        has_star(s) <==> exists|i: int|
            #![trigger segments(s)[i]]
            0 <= i < segments(s).len() && has_star(segments(s)[i]),
    decreases s.len(),
{
    lemma_split(s);
    let i = first_separator(s);
    let segs = segments(s);
    if i == s.len() {
        if has_star(s) {
            assert(has_star(segs[0]));
        }
    } else {
        let tail = s.skip(i as int + 1);
        lemma_has_star(tail);
        if has_star(s) {
            let j = choose|j: int| 0 <= j < s.len() && s[j] == STAR;
            if j < i {
                assert(segs[0][j] == STAR);
                assert(has_star(segs[0]));
            } else {
                assert(j > i);
                assert(tail[j - i - 1] == STAR);
                assert(has_star(tail));
                let m = choose|m: int|
                    #![trigger segments(tail)[m]]
                    0 <= m < segments(tail).len() && has_star(segments(tail)[m]);
                assert(segs.skip(1)[m] == segs[m + 1]);
                assert(has_star(segs[m + 1]));
            }
        }
        if exists|m: int| #![trigger segs[m]] 0 <= m < segs.len() && has_star(segs[m]) {
            let m = choose|m: int| #![trigger segs[m]] 0 <= m < segs.len() && has_star(segs[m]);
            if m == 0 {
                let j = choose|j: int| 0 <= j < segs[0].len() && segs[0][j] == STAR;
                assert(s[j] == STAR);
            } else {
                assert(segs.skip(1)[m - 1] == segs[m]);
                assert(has_star(segments(tail)[m - 1]));
                assert(has_star(tail));
                let j = choose|j: int| 0 <= j < tail.len() && tail[j] == STAR;
                assert(s[i + 1 + j] == STAR);
            }
        }
    }
}

/// The segments of an address without `*` are neither `*` nor `**`.
pub proof fn lemma_concrete_segments(s: Seq<u8>)
    requires
        !has_star(s),
    ensures
        forall|i: int|
            #![trigger segments(s)[i]]
            0 <= i < segments(s).len() ==> !has_star(segments(s)[i]) && segments(s)[i] != star()
                && segments(s)[i] != starstar(),
{
    lemma_has_star(s);
    lemma_wildcard_segments();
}

/// The wildcard segments hold `*`.
pub proof fn lemma_wildcard_segments()
    ensures
        has_star(star()),
        has_star(starstar()),
        star() != starstar(),
        !star().contains(SEPARATOR),
        !starstar().contains(SEPARATOR),
{
    assert(star()[0] == STAR);
    assert(starstar()[0] == STAR);
    assert(star().len() != starstar().len());
}

// ---------------------------------------------------------------------------------------
// Matching
// ---------------------------------------------------------------------------------------

/// Overlapping does not depend on the order of the patterns.
pub proof fn lemma_overlap_symmetric(p: Seq<Seq<u8>>, q: Seq<Seq<u8>>)
    ensures
        overlap(p, q) == overlap(q, p),
    decreases p.len(),
{
    if p.len() > 0 && q.len() > 0 {
        lemma_overlap_symmetric(p.skip(1), q.skip(1));
    }
}

/// Two patterns that cover one address overlap.
pub proof fn lemma_covers_overlap(p: Seq<Seq<u8>>, q: Seq<Seq<u8>>, a: Seq<Seq<u8>>)
    requires
        covers(p, a),
        covers(q, a),
    ensures
        overlap(p, q),
    decreases p.len(),
{
    if p.len() > 0 && p[0] == starstar() {
    } else if q.len() > 0 && q[0] == starstar() {
    } else if p.len() == 0 || a.len() == 0 {
    } else {
        lemma_covers_overlap(p.skip(1), q.skip(1), a.skip(1));
    }
}

/// What a pattern covers overlaps it as a pattern of its own.
pub proof fn lemma_covers_is_overlap(p: Seq<Seq<u8>>, a: Seq<Seq<u8>>)
    requires
        covers(p, a),
    ensures
        overlap(p, a),
    decreases p.len(),
{
    if p.len() > 0 && a.len() > 0 && p[0] != starstar() {
        lemma_covers_is_overlap(p.skip(1), a.skip(1));
    }
}

// ---------------------------------------------------------------------------------------
// Where a match can be found
// ---------------------------------------------------------------------------------------

/// The part of `pattern` before its first `*`, all of it if it has none.
pub open spec fn static_prefix(pattern: Seq<u8>) -> Seq<u8>
    decreases pattern.len(),
{
    if pattern.len() == 0 || pattern[0] == STAR {
        Seq::empty()
    } else {
        seq![pattern[0]] + static_prefix(pattern.skip(1))
    }
}

/// `s` without its last byte if that is a separator.
pub open spec fn trim_separator(s: Seq<u8>) -> Seq<u8> {
    if s.len() > 0 && s.last() == SEPARATOR {
        s.drop_last()
    } else {
        s
    }
}

/// What a static prefix is: nothing before `i` is `*`, and `i` is the end or a `*`.
pub proof fn lemma_static_prefix(s: Seq<u8>, i: nat)
    requires
        i <= s.len(),
        forall|j: int| 0 <= j < i ==> s[j] != STAR,
        i == s.len() || s[i as int] == STAR,
    ensures
        static_prefix(s) == s.take(i as int),
    decreases s.len(),
{
    if i > 0 {
        let t = s.skip(1);
        assert forall|j: int| 0 <= j < i - 1 implies t[j] != STAR by {
            assert(t[j] == s[j + 1]);
        }
        lemma_static_prefix(t, (i - 1) as nat);
        assert(s.take(i as int) =~= seq![s[0]] + t.take(i - 1));
    } else {
        assert(s.take(0) =~= Seq::empty());
    }
}

proof fn lemma_static_prefix_append(head: Seq<u8>, tail: Seq<u8>)
    requires
        !has_star(head),
    ensures
        static_prefix(head + tail) == head + static_prefix(tail),
    decreases head.len(),
{
    if head.len() == 0 {
        assert(head + tail =~= tail);
        assert(head + static_prefix(tail) =~= static_prefix(tail));
    } else {
        let rest = head.skip(1);
        assert(head.contains(head[0]));
        assert forall|x: u8| rest.contains(x) implies head.contains(x) by {
            let j = choose|j: int| 0 <= j < rest.len() && rest[j] == x;
            assert(head[j + 1] == x);
        }
        lemma_static_prefix_append(rest, tail);
        assert((head + tail).skip(1) =~= rest + tail);
        assert(head + static_prefix(tail) =~= seq![head[0]] + (rest + static_prefix(tail)));
    }
}

/// Every concrete address that a pattern covers starts with the pattern's static prefix, or is
/// that prefix without its last separator.
pub proof fn lemma_static_prefix_of_covered(p: Seq<u8>, a: Seq<u8>)
    requires
        valid_segments(segments(p)),
        !has_star(segments(p)[0]),
        !has_star(a),
        covers(segments(p), segments(a)),
    ensures
        static_prefix(p).is_prefix_of(a) || a == trim_separator(static_prefix(p)),
    decreases p.len(),
{
    lemma_split(p);
    lemma_split(a);
    lemma_wildcard_segments();
    lemma_concrete_segments(a);
    let ps = segments(p);
    let az = segments(a);
    let i = first_separator(p);
    assert(ps[0] != starstar() && ps[0] != star());
    assert(az[0] == ps[0]);
    if i == p.len() {
        assert(p + Seq::<u8>::empty() =~= p);
        lemma_static_prefix_append(p, Seq::empty());
        assert(static_prefix(p) =~= p);
        assert(p =~= a.subrange(0, p.len() as int));
    } else {
        let head = ps[0];
        let tail = p.skip(i as int + 1);
        let tails = segments(tail);
        lemma_split(tail);
        lemma_static_prefix_append(head, seq![SEPARATOR] + tail);
        assert(head + (seq![SEPARATOR] + tail) =~= p);
        assert(seq![SEPARATOR][0] == SEPARATOR);
        assert(!has_star(seq![SEPARATOR])) by {
            if has_star(seq![SEPARATOR]) {
                let j = choose|j: int| 0 <= j < 1 && seq![SEPARATOR][j] == STAR;
                assert(j == 0);
            }
        }
        lemma_static_prefix_append(seq![SEPARATOR], tail);
        let x = static_prefix(tail);
        let whole = head + (seq![SEPARATOR] + x);
        assert(static_prefix(p) == whole);
        assert(tails[0] == ps[1]) by {
            assert(ps.skip(1)[0] == ps[1]);
        }
        if has_star(tails[0]) {
            assert(ps[1] == star() || ps[1] == starstar());
            assert(tails[0][0] == STAR);
            assert(tail[0] == STAR);
            assert(x =~= Seq::empty());
            assert(whole.last() == SEPARATOR);
            assert(whole.drop_last() =~= head);
            assert(trim_separator(whole) =~= head);
            if first_separator(a) == a.len() {
                assert(a =~= head);
            } else {
                assert(whole =~= a.subrange(0, whole.len() as int));
            }
        } else {
            assert(tails[0] != starstar());
            assert(covers(ps.skip(1), az.skip(1)));
            assert(ps.skip(1)[0] == tails[0]);
            assert(az.skip(1).len() > 0);
            let j = first_separator(a);
            let rest = a.skip(j as int + 1);
            assert(valid_segments(tails)) by {
                assert forall|m: int|
                    #![trigger tails[m]]
                    0 <= m < tails.len() implies tails[m].len() > 0 && (has_star(tails[m])
                    ==> tails[m] == star() || (tails[m] == starstar() && m == tails.len() - 1)) by {
                    assert(ps.skip(1)[m] == ps[m + 1]);
                }
            }
            assert(!has_star(rest)) by {
                if has_star(rest) {
                    let m = choose|m: int| 0 <= m < rest.len() && rest[m] == STAR;
                    assert(a[j + 1 + m] == STAR);
                }
            }
            lemma_static_prefix_of_covered(tail, rest);
            assert(x.len() > 0) by {
                assert(tails[0].len() > 0);
                assert(tail[0] == tails[0][0]);
                assert(tails[0].contains(tails[0][0]));
            }
            assert(whole.last() == x.last());
            let y = trim_separator(x);
            assert(trim_separator(whole) =~= head + (seq![SEPARATOR] + y));
            assert(a =~= head + (seq![SEPARATOR] + rest));
            if x.is_prefix_of(rest) {
                assert(x =~= rest.subrange(0, x.len() as int));
                assert(whole =~= a.subrange(0, whole.len() as int));
            } else {
                assert(a =~= trim_separator(whole));
            }
        }
    }
}

/// Whether a segment of `t` ends at `e`.
pub open spec fn segment_end(t: Seq<u8>, e: int) -> bool {
    0 <= e <= t.len() && (e == t.len() || t[e] == SEPARATOR)
}

/// The pattern that covers whatever starts with the segments of `t` up to `e`.
pub open spec fn prefix_candidate(t: Seq<u8>, e: int) -> Seq<u8> {
    t.take(e) + seq![SEPARATOR, STAR, STAR]
}

/// The candidate patterns cover the address or pattern that they are made from.
pub proof fn lemma_candidate_covers(t: Seq<u8>, e: int)
    requires
        segment_end(t, e),
        valid_segments(segments(prefix_candidate(t, e))),
    ensures
        covers(segments(prefix_candidate(t, e)), segments(t)),
        overlap(segments(prefix_candidate(t, e)), segments(t)),
    decreases t.len(),
{
    let k = prefix_candidate(t, e);
    let ks = segments(k);
    let ts = segments(t);
    let i = first_separator(t) as int;
    lemma_split(t);
    lemma_first_separator_bounds(t);
    lemma_wildcard_segments();
    assert(ts[0] == t.take(i));
    assert(i <= e);
    let suffix = seq![SEPARATOR, STAR, STAR];
    let rest = if i == e {
        starstar()
    } else {
        prefix_candidate(t.skip(i + 1), e - i - 1)
    };
    assert(k =~= ts[0] + seq![SEPARATOR] + rest) by {
        if i < e {
            assert(t.take(e) =~= t.take(i) + seq![SEPARATOR] + t.skip(i + 1).take(e - i - 1));
        }
    }
    lemma_segments_cons(ts[0], rest);
    assert(ks == seq![ts[0]] + segments(rest));
    assert(ks.skip(1) =~= segments(rest));
    assert(ks[0] == ts[0]);
    lemma_split(rest);
    assert(ks[0] != starstar()) by {
        assert(ks.len() >= 2);
        assert(ks[0] == starstar() ==> has_star(ks[0]));
    }
    if i == e {
        lemma_segments_one(starstar());
        assert(ks.skip(1) =~= seq![starstar()]);
        assert(ks.skip(1)[0] == starstar());
        assert(covers(ks.skip(1), ts.skip(1)));
    } else {
        let tail = t.skip(i + 1);
        assert(segment_end(tail, e - i - 1)) by {
            if e < t.len() {
                assert(tail[e - i - 1] == t[e]);
            }
        }
        lemma_valid_tail(ks);
        lemma_candidate_covers(tail, e - i - 1);
        assert(ts.skip(1) == segments(tail));
    }
    assert(ts.len() > 0);
    assert(covers(ks.skip(1), ts.skip(1)));
    assert(covers(ks, ts));
    lemma_covers_is_overlap(ks, ts);
}

/// What follows the first segment of a well-formed pattern is well formed too.
pub proof fn lemma_valid_tail(segs: Seq<Seq<u8>>)
    requires
        valid_segments(segs),
        segs.len() > 0,
    ensures
        valid_segments(segs.skip(1)),
{
    let tail = segs.skip(1);
    assert forall|i: int|
        #![trigger tail[i]]
        0 <= i < tail.len() implies tail[i].len() > 0 && (has_star(tail[i]) ==> tail[i] == star()
        || (tail[i] == starstar() && i == tail.len() - 1)) by {
        assert(tail[i] == segs[i + 1]);
    }
}

/// The first segment of a well-formed pattern is static.
pub proof fn lemma_static_first(p: Seq<u8>)
    requires
        valid_pattern(p),
    ensures
        !has_star(segments(p)[0]),
        segments(p)[0] != star(),
        segments(p)[0] != starstar(),
{
    lemma_split(p);
    lemma_wildcard_segments();
    let first = segments(p)[0];
    assert(first.len() > 0);
    assert(p[0] == first[0]);
}

/// A well-formed pattern that matches a target starts with the target's first segment, unless
/// that is a wildcard itself.
pub proof fn lemma_first_segment_shared(k: Seq<u8>, t: Seq<u8>, both: bool)
    requires
        valid_pattern(k),
        comparison(segments(k), segments(t), both),
        segments(t)[0] != star(),
        segments(t)[0] != starstar(),
    ensures
        segments(t)[0].is_prefix_of(k),
{
    lemma_split(k);
    lemma_split(t);
    lemma_static_first(k);
    assert(segments(k)[0] == segments(t)[0]);
}

// ---------------------------------------------------------------------------------------
// Addresses that two patterns share
// ---------------------------------------------------------------------------------------

/// The address with segments `segs`.
pub open spec fn join(segs: Seq<Seq<u8>>) -> Seq<u8>
    decreases segs.len(),
{
    if segs.len() == 0 {
        Seq::empty()
    } else if segs.len() == 1 {
        segs[0]
    } else {
        segs[0] + seq![SEPARATOR] + join(segs.skip(1))
    }
}

/// Joining segments and splitting the result gives the segments back.
pub proof fn lemma_segments_join(segs: Seq<Seq<u8>>)
    requires
        segs.len() > 0,
        forall|i: int| #![trigger segs[i]] 0 <= i < segs.len() ==> !segs[i].contains(SEPARATOR),
    ensures
        segments(join(segs)) == segs,
    decreases segs.len(),
{
    if segs.len() == 1 {
        lemma_segments_one(segs[0]);
        assert(segs =~= seq![segs[0]]);
    } else {
        let tail = segs.skip(1);
        assert forall|i: int| #![trigger tail[i]] 0 <= i < tail.len() implies !tail[i].contains(
            SEPARATOR,
        ) by {
            assert(tail[i] == segs[i + 1]);
        }
        lemma_segments_join(tail);
        lemma_segments_cons(segs[0], join(tail));
        assert(segs =~= seq![segs[0]] + tail);
    }
}

/// No segment holds a separator.
pub proof fn lemma_no_separator(s: Seq<u8>)
    ensures
        forall|i: int|
            #![trigger segments(s)[i]]
            0 <= i < segments(s).len() ==> !segments(s)[i].contains(SEPARATOR),
    decreases s.len(),
{
    lemma_split(s);
    let i = first_separator(s);
    if i < s.len() {
        let tail = s.skip(i as int + 1);
        lemma_no_separator(tail);
        assert forall|j: int|
            #![trigger segments(s)[j]]
            0 <= j < segments(s).len() implies !segments(s)[j].contains(SEPARATOR) by {
            if j > 0 {
                assert(segments(s).skip(1)[j - 1] == segments(s)[j]);
            }
        }
    }
}

/// A segment without `*` that agrees with the segment `s`.
spec fn concrete_segment(s: Seq<u8>) -> Seq<u8> {
    if s == star() {
        seq![45u8]
    } else {
        s
    }
}

/// The segments of an address that the pattern with segments `p` covers.
spec fn sample(p: Seq<Seq<u8>>) -> Seq<Seq<u8>>
    decreases p.len(),
{
    if p.len() == 0 || p[0] == starstar() {
        Seq::empty()
    } else {
        seq![concrete_segment(p[0])] + sample(p.skip(1))
    }
}

/// The segments of an address that both patterns cover, if they overlap.
spec fn shared_sample(p: Seq<Seq<u8>>, q: Seq<Seq<u8>>) -> Seq<Seq<u8>>
    decreases p.len(),
{
    if p.len() == 0 || p[0] == starstar() {
        sample(q)
    } else if q.len() == 0 || q[0] == starstar() {
        sample(p)
    } else if p[0] == star() {
        seq![concrete_segment(q[0])] + shared_sample(p.skip(1), q.skip(1))
    } else {
        seq![p[0]] + shared_sample(p.skip(1), q.skip(1))
    }
}

/// Whether no segment is empty, or holds `*` or a separator.
spec fn plain_segments(segs: Seq<Seq<u8>>) -> bool {
    forall|i: int|
        #![trigger segs[i]]
        0 <= i < segs.len() ==> segs[i].len() > 0 && !has_star(segs[i]) && !segs[i].contains(
            SEPARATOR,
        )
}

spec fn without_separators(segs: Seq<Seq<u8>>) -> bool {
    forall|i: int| #![trigger segs[i]] 0 <= i < segs.len() ==> !segs[i].contains(SEPARATOR)
}

proof fn lemma_without_separators_tail(segs: Seq<Seq<u8>>)
    requires
        without_separators(segs),
        segs.len() > 0,
    ensures
        without_separators(segs.skip(1)),
{
    let tail = segs.skip(1);
    assert forall|i: int| #![trigger tail[i]] 0 <= i < tail.len() implies !tail[i].contains(
        SEPARATOR,
    ) by {
        assert(tail[i] == segs[i + 1]);
    }
}

proof fn lemma_plain_cons(head: Seq<u8>, tail: Seq<Seq<u8>>)
    requires
        head.len() > 0,
        !has_star(head),
        !head.contains(SEPARATOR),
        plain_segments(tail),
    ensures
        plain_segments(seq![head] + tail),
{
    let segs = seq![head] + tail;
    assert forall|i: int| #![trigger segs[i]] 0 <= i < segs.len() implies segs[i].len() > 0
        && !has_star(segs[i]) && !segs[i].contains(SEPARATOR) by {
        if i > 0 {
            assert(segs[i] == tail[i - 1]);
        }
    }
}

proof fn lemma_concrete_segment(s: Seq<u8>)
    requires
        s.len() > 0,
        has_star(s) ==> s == star(),
        !s.contains(SEPARATOR),
    ensures
        concrete_segment(s).len() > 0,
        !has_star(concrete_segment(s)),
        !concrete_segment(s).contains(SEPARATOR),
{
    assert(seq![45u8][0] == 45);
}

proof fn lemma_sample(p: Seq<Seq<u8>>)
    requires
        valid_segments(p),
        without_separators(p),
    ensures
        covers(p, sample(p)),
        plain_segments(sample(p)),
    decreases p.len(),
{
    if p.len() > 0 {
        assert(p[0].len() > 0);
        lemma_wildcard_segments();
        if p[0] == starstar() {
            assert(p.len() == 1);
        } else {
            lemma_valid_tail(p);
            lemma_without_separators_tail(p);
            lemma_sample(p.skip(1));
            let s = sample(p);
            assert(s.skip(1) =~= sample(p.skip(1)));
            lemma_concrete_segment(p[0]);
            lemma_plain_cons(concrete_segment(p[0]), sample(p.skip(1)));
        }
    }
}

proof fn lemma_shared_sample(p: Seq<Seq<u8>>, q: Seq<Seq<u8>>)
    requires
        valid_segments(p),
        valid_segments(q),
        without_separators(p),
        without_separators(q),
        overlap(p, q),
    ensures
        covers(p, shared_sample(p, q)),
        covers(q, shared_sample(p, q)),
        plain_segments(shared_sample(p, q)),
    decreases p.len(),
{
    lemma_wildcard_segments();
    let s = shared_sample(p, q);
    if p.len() > 0 {
        assert(p[0].len() > 0);
    }
    if q.len() > 0 {
        assert(q[0].len() > 0);
    }
    if p.len() == 0 || p[0] == starstar() {
        lemma_sample(q);
        if p.len() == 0 && q.len() > 0 {
            assert(q[0] == starstar());
        }
    } else if q.len() == 0 || q[0] == starstar() {
        lemma_sample(p);
    } else {
        lemma_valid_tail(p);
        lemma_valid_tail(q);
        lemma_without_separators_tail(p);
        lemma_without_separators_tail(q);
        lemma_shared_sample(p.skip(1), q.skip(1));
        let tail = shared_sample(p.skip(1), q.skip(1));
        let head = if p[0] == star() {
            concrete_segment(q[0])
        } else {
            p[0]
        };
        assert(s == seq![head] + tail);
        assert(s.skip(1) =~= tail);
        lemma_concrete_segment(q[0]);
        assert(!has_star(head) && !head.contains(SEPARATOR));
        lemma_plain_cons(head, tail);
    }
}

/// Whether no segment of an address is empty.
pub open spec fn no_empty_segment(a: Seq<u8>) -> bool {
    forall|i: int| #![trigger segments(a)[i]] 0 <= i < segments(a).len() ==> segments(a)[i].len()
        > 0
}

/// Two wildcard patterns are in conflict exactly if there is a concrete address, without an
/// empty segment, that both cover.
pub proof fn law_conflict_means_common_address(p: Seq<u8>, q: Seq<u8>)
    requires
        valid_pattern(p),
        valid_pattern(q),
    ensures
        overlap(segments(p), segments(q)) <==> exists|a: Seq<u8>|
            #![trigger segments(a)]
            !has_star(a) && no_empty_segment(a) && covers(segments(p), segments(a)) && covers(
                segments(q),
                segments(a),
            ),
{
    let ps = segments(p);
    let qs = segments(q);
    lemma_split(p);
    lemma_split(q);
    lemma_static_first(p);
    lemma_static_first(q);
    if overlap(ps, qs) {
        lemma_no_separator(p);
        lemma_no_separator(q);
        lemma_shared_sample(ps, qs);
        let s = shared_sample(ps, qs);
        assert(s.len() > 0);
        let a = join(s);
        lemma_segments_join(s);
        lemma_has_star(a);
        assert(segments(a) == s);
        assert(!has_star(a));
    }
    if exists|a: Seq<u8>|
        #![trigger segments(a)]
        covers(ps, segments(a)) && covers(qs, segments(a)) {
        let a = choose|a: Seq<u8>|
            #![trigger segments(a)]
            covers(ps, segments(a)) && covers(qs, segments(a));
        lemma_covers_overlap(ps, qs, segments(a));
    }
}

// ---------------------------------------------------------------------------------------
// Order of keys
// ---------------------------------------------------------------------------------------

/// The lexicographic order of byte strings.
pub open spec fn lex_le(a: Seq<u8>, b: Seq<u8>) -> bool
    decreases a.len(),
{
    a.len() == 0 || (b.len() > 0 && (a[0] < b[0] || (a[0] == b[0] && lex_le(
        a.skip(1),
        b.skip(1),
    ))))
}

/// Two byte strings that are each at most the other are equal.
pub proof fn lemma_lex_antisymmetric(a: Seq<u8>, b: Seq<u8>)
    requires
        lex_le(a, b),
        lex_le(b, a),
    ensures
        a == b,
    decreases a.len(),
{
    if a.len() == 0 {
        assert(a =~= b);
    } else {
        lemma_lex_antisymmetric(a.skip(1), b.skip(1));
        assert(a =~= seq![a[0]] + a.skip(1));
        assert(b =~= seq![b[0]] + b.skip(1));
    }
}

/// Every byte string is at most itself.
pub proof fn lemma_lex_reflexive(a: Seq<u8>)
    ensures
        lex_le(a, a),
    decreases a.len(),
{
    if a.len() > 0 {
        lemma_lex_reflexive(a.skip(1));
    }
}

} // verus!
