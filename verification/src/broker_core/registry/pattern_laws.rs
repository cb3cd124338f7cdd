//! What patterns are and what they match, segment by segment.

use vstd::prelude::*;
use vstd::utf8::encode_utf8;

use super::error::RegistryError;
use super::pattern::{
    compare_segments_bytes, covers, first_separator, is_wildcard, lemma_pattern_fault, overlap,
    pattern_fault, segment_fault, segments, validate_wildcard_pattern, PatternFault,
};
use super::segments::{join, lemma_no_separator, lemma_segments_join, lemma_split};
use super::LocalRegistry;
use crate::text::bytes_text;

verus! {

/// The segment that stands for any one segment.
pub open spec fn any_one() -> Seq<u8> {
    seq!['*' as u8]
}

/// The segment that stands for any number of segments.
pub open spec fn any_number() -> Seq<u8> {
    seq!['*' as u8, '*' as u8]
}

/// Whether a byte string holds `*`.
pub open spec fn holds_star(s: Seq<u8>) -> bool {
    s.contains('*' as u8)
}

// ---------------------------------------------------------------------------------------
// Segments
// ---------------------------------------------------------------------------------------

/// The segments of a byte string are what `:` separates: none of them holds one, and joined by
/// it they give the byte string back. No other list of segments does.
pub proof fn law_segments_are_what_is_separated(s: Seq<u8>, other: Seq<Seq<u8>>)
    ensures
        segments(s).len() > 0,
        forall|i: int|
            #![trigger segments(s)[i]]
            0 <= i < segments(s).len() ==> !segments(s)[i].contains(':' as u8),
        join(segments(s)) == s,
        other.len() > 0 && join(other) == s && (forall|i: int|
            #![trigger other[i]]
            0 <= i < other.len() ==> !other[i].contains(':' as u8)) ==> other == segments(s),
{
    lemma_no_separator(s);
    lemma_join_segments(s);
    lemma_split(s);
    if other.len() > 0 && join(other) == s && (forall|i: int|
        #![trigger other[i]]
        0 <= i < other.len() ==> !other[i].contains(':' as u8)) {
        lemma_segments_join(other);
    }
}

proof fn lemma_join_segments(s: Seq<u8>)
    ensures
        join(segments(s)) == s,
    decreases s.len(),
{
    lemma_split(s);
    let i = first_separator(s) as int;
    if i < s.len() {
        lemma_join_segments(s.skip(i + 1));
        lemma_split(s.skip(i + 1));
    }
}

// ---------------------------------------------------------------------------------------
// Matching
// ---------------------------------------------------------------------------------------

/// Whether the first `k` segments of a pattern and of an address match one by one, none of
/// those of the pattern being `**`.
pub open spec fn match_up_to(p: Seq<Seq<u8>>, t: Seq<Seq<u8>>, k: int) -> bool {
    &&& 0 <= k <= p.len()
    &&& k <= t.len()
    &&& forall|i: int|
        #![trigger p[i]]
        0 <= i < k ==> p[i] != any_number() && (p[i] == any_one() || p[i] == t[i])
}

/// Whether the first `k` segments of two patterns agree one by one.
pub open spec fn agree_up_to(p: Seq<Seq<u8>>, q: Seq<Seq<u8>>, k: int) -> bool {
    &&& 0 <= k <= p.len()
    &&& k <= q.len()
    &&& forall|i: int|
        #![trigger p[i]]
        0 <= i < k ==> p[i] == any_one() || q[i] == any_one() || p[i] == q[i]
}

/// Whether two patterns agree up to the end of both, or up to a `**` of either.
pub open spec fn agree(p: Seq<Seq<u8>>, q: Seq<Seq<u8>>) -> bool {
    exists|k: int| #[trigger]
        agree_up_to(p, q, k) && ((k == p.len() && k == q.len()) || (k < p.len() && p[k]
            == any_number()) || (k < q.len() && q[k] == any_number()))
}

/// Whether a pattern matches an address: segment by segment up to the end of both, or up to
/// its last segment if that is `**`.
pub open spec fn matches_by_position(p: Seq<Seq<u8>>, t: Seq<Seq<u8>>) -> bool {
    (p.len() == t.len() && match_up_to(p, t, p.len() as int)) || (p.len() > 0 && p.last()
        == any_number() && match_up_to(p, t, p.len() - 1))
}

proof fn lemma_covers_by_position(p: Seq<Seq<u8>>, t: Seq<Seq<u8>>)
    ensures
        covers(p, t) <==> matches_by_position(p, t),
    decreases p.len(),
{
    if p.len() > 0 && p[0] == any_number() {
        if p.len() == 1 {
            assert(match_up_to(p, t, 0));
        }
    } else if p.len() == 0 || t.len() == 0 {
        if p.len() == 0 && t.len() == 0 {
            assert(match_up_to(p, t, 0));
        }
    } else {
        let x = p.skip(1);
        let y = t.skip(1);
        lemma_covers_by_position(x, y);
        assert forall|k: int| 1 <= k <= p.len() implies (match_up_to(p, t, k) <==> (p[0]
            == any_one() || p[0] == t[0]) && #[trigger] match_up_to(x, y, k - 1)) by {
            if match_up_to(p, t, k) {
                assert forall|i: int| #![trigger x[i]] 0 <= i < k - 1 implies x[i] != any_number()
                    && (x[i] == any_one() || x[i] == y[i]) by {
                    assert(x[i] == p[i + 1]);
                }
            }
            if (p[0] == any_one() || p[0] == t[0]) && match_up_to(x, y, k - 1) {
                assert forall|i: int| #![trigger p[i]] 0 <= i < k implies p[i] != any_number() && (
                p[i] == any_one() || p[i] == t[i]) by {
                    if i > 0 {
                        assert(x[i - 1] == p[i]);
                    }
                }
            }
        }
        assert(match_up_to(x, y, p.len() - 1) || !match_up_to(x, y, p.len() - 1));
        if p.len() > 1 {
            assert(x.last() == p.last());
            assert(match_up_to(x, y, p.len() - 1 - 1) || !match_up_to(x, y, p.len() - 1 - 1));
        }
    }
}

proof fn lemma_overlap_by_position(p: Seq<Seq<u8>>, q: Seq<Seq<u8>>)
    ensures
        overlap(p, q) <==> agree(p, q),
    decreases p.len(),
{
    if (p.len() > 0 && p[0] == any_number()) || (q.len() > 0 && q[0] == any_number()) {
        assert(agree_up_to(p, q, 0));
    } else if p.len() == 0 || q.len() == 0 {
        assert(agree_up_to(p, q, 0));
        if agree(p, q) {
            let k = choose|k: int| #[trigger]
                agree_up_to(p, q, k) && ((k == p.len() && k == q.len()) || (k < p.len() && p[k]
                    == any_number()) || (k < q.len() && q[k] == any_number()));
            assert(k == 0);
        }
    } else {
        let x = p.skip(1);
        let y = q.skip(1);
        lemma_overlap_by_position(x, y);
        if overlap(p, q) {
            let k = choose|k: int| #[trigger]
                agree_up_to(x, y, k) && ((k == x.len() && k == y.len()) || (k < x.len() && x[k]
                    == any_number()) || (k < y.len() && y[k] == any_number()));
            assert(agree_up_to(p, q, k + 1)) by {
                assert forall|i: int| #![trigger p[i]] 0 <= i < k + 1 implies p[i] == any_one()
                    || q[i] == any_one() || p[i] == q[i] by {
                    if i > 0 {
                        assert(x[i - 1] == p[i]);
                        assert(y[i - 1] == q[i]);
                    }
                }
            }
            assert(k < x.len() ==> x[k] == p[k + 1]);
            assert(k < y.len() ==> y[k] == q[k + 1]);
        }
        if agree(p, q) {
            let k = choose|k: int| #[trigger]
                agree_up_to(p, q, k) && ((k == p.len() && k == q.len()) || (k < p.len() && p[k]
                    == any_number()) || (k < q.len() && q[k] == any_number()));
            assert(k > 0);
            assert(p[0] == any_one() || q[0] == any_one() || p[0] == q[0]);
            assert(agree_up_to(x, y, k - 1)) by {
                assert forall|i: int| #![trigger x[i]] 0 <= i < k - 1 implies x[i] == any_one()
                    || y[i] == any_one() || x[i] == y[i] by {
                    assert(x[i] == p[i + 1]);
                    assert(y[i] == q[i + 1]);
                }
            }
            assert(k < p.len() ==> x[k - 1] == p[k]);
            assert(k < q.len() ==> y[k - 1] == q[k]);
        }
    }
}

/// Comparing with one pattern matches `*` with any one segment of the target and a last `**`
/// with all that is left, also with nothing; all else is equal. Comparing two patterns, both
/// wildcards count on both sides.
pub proof fn law_comparing(pattern: &[u8], target: &[u8], both: bool, r: bool)
    requires
        call_ensures(compare_segments_bytes, (pattern, target, both), r),
    ensures
        both ==> (r <==> agree(segments(pattern@), segments(target@))),
        !both ==> (r <==> matches_by_position(segments(pattern@), segments(target@))),
{
    lemma_covers_by_position(segments(pattern@), segments(target@));
    lemma_overlap_by_position(segments(pattern@), segments(target@));
}

/// Matching refuses a pattern that breaks a rule, and otherwise compares by position.
pub proof fn law_matching(pattern: &[u8], address: &[u8], r: Result<bool, RegistryError>)
    requires
        call_ensures(LocalRegistry::matches, (pattern, address), r),
    ensures
        match r {
            Ok(m) => obeys_rules(pattern@) && m == matches_by_position(
                segments(pattern@),
                segments(address@),
            ),
            Err(e) => !obeys_rules(pattern@) && e is InvalidWildcardFormat,
        },
{
    lemma_rules(pattern@);
    lemma_covers_by_position(segments(pattern@), segments(address@));
}

/// Whether two patterns conflict is whether they agree by position. A pattern that breaks a
/// rule is refused.
pub proof fn law_conflicting(pattern1: &[u8], pattern2: &[u8], r: Result<bool, RegistryError>)
    requires
        call_ensures(LocalRegistry::patterns_conflict_bytes, (pattern1, pattern2), r),
    ensures
        match r {
            Ok(c) => obeys_rules(pattern1@) && obeys_rules(pattern2@) && c == agree(
                segments(pattern1@),
                segments(pattern2@),
            ),
            Err(e) => !(obeys_rules(pattern1@) && obeys_rules(pattern2@))
                && e is InvalidWildcardFormat,
        },
{
    lemma_rules(pattern1@);
    lemma_rules(pattern2@);
    lemma_overlap_by_position(segments(pattern1@), segments(pattern2@));
}

// ---------------------------------------------------------------------------------------
// Rules
// ---------------------------------------------------------------------------------------

/// Whether a segment may stand in a pattern: it is not empty and holds no `*`, unless it is
/// `*` or, as the last one, `**`.
pub open spec fn sound_segment(segment: Seq<u8>, last: bool) -> bool {
    segment.len() > 0 && (!holds_star(segment) || segment == any_one() || (last && segment
        == any_number()))
}

/// Whether a pattern obeys the rules: it is not empty, does not begin with `*`, and all of its
/// segments are sound.
pub open spec fn obeys_rules(pattern: Seq<u8>) -> bool {
    &&& pattern.len() > 0
    &&& pattern[0] != '*' as u8
    &&& forall|i: int|
        #![trigger segments(pattern)[i]]
        0 <= i < segments(pattern).len() ==> sound_segment(
            segments(pattern)[i],
            i == segments(pattern).len() - 1,
        )
}

proof fn lemma_rules(pattern: Seq<u8>)
    ensures
        obeys_rules(pattern) <==> pattern_fault(pattern) is None,
{
    lemma_pattern_fault(pattern);
}

/// Whether the segments before `i` are no reason to refuse a pattern: none is empty, each is
/// `*`, `**` or without `*`, and none but the one just before `i` is `**`.
pub open spec fn sound_before(segs: Seq<Seq<u8>>, i: int) -> bool {
    &&& 0 <= i <= segs.len()
    &&& forall|j: int|
        #![trigger segs[j]]
        0 <= j < i ==> segs[j].len() > 0 && (!holds_star(segs[j]) || segs[j] == any_one()
            || segs[j] == any_number()) && (j < i - 1 ==> segs[j] != any_number())
}

/// What is wrong with segment `i`, the ones before it being no reason to refuse.
pub open spec fn fault_at(segs: Seq<Seq<u8>>, i: int, fault: PatternFault) -> bool {
    &&& 0 <= i < segs.len()
    &&& if segs[i].len() == 0 {
        fault == PatternFault::EmptySegment
    } else if i > 0 && segs[i - 1] == any_number() {
        fault == PatternFault::StarStarNotLast
    } else {
        &&& holds_star(segs[i]) && segs[i] != any_one() && segs[i] != any_number()
        &&& fault == PatternFault::PartialWildcard(segs[i])
    }
}

proof fn lemma_first_fault(segs: Seq<Seq<u8>>, i: int)
    requires
        0 <= i <= segs.len(),
        sound_before(segs, i),
    ensures
        segment_fault(segs.skip(i), i > 0 && segs[i - 1] == any_number()) matches Some(fault)
            ==> exists|k: int| #[trigger] sound_before(segs, k) && fault_at(segs, k, fault),
    decreases segs.len() - i,
{
    let rest = segs.skip(i);
    let found = i > 0 && segs[i - 1] == any_number();
    if let Some(fault) = segment_fault(rest, found) {
        assert(rest[0] == segs[i]);
        assert(rest.skip(1) =~= segs.skip(i + 1));
        if rest[0].len() == 0 || found {
            assert(fault_at(segs, i, fault));
        } else if rest[0] != any_one() && rest[0] != any_number() && holds_star(rest[0]) {
            assert(fault_at(segs, i, fault));
        } else {
            assert(sound_before(segs, i + 1));
            lemma_first_fault(segs, i + 1);
        }
    }
}

/// A pattern is accepted exactly if it obeys the rules. It is refused for being empty, for
/// being `**`, for beginning with `*`, or for the first of its segments that breaks a rule, in
/// this order, and the text names the pattern and that segment.
pub proof fn law_checked_patterns(pattern: &str, r: Result<(), RegistryError>)
    requires
        call_ensures(validate_wildcard_pattern, (pattern,), r),
    ensures
        r is Ok <==> obeys_rules(encode_utf8(pattern@)),
        r matches Err(e) ==> {
            &&& e matches RegistryError::InvalidWildcardFormat(text)
            &&& {
                let bytes = encode_utf8(pattern@);
                if bytes.len() == 0 {
                    text@ == "Pattern cannot be empty"@
                } else if bytes == any_number() {
                    text@
                        == "Global '**' wildcard is not allowed; pattern must have at least one static prefix segment"@
                } else if bytes[0] == '*' as u8 {
                    text@
                        == "Pattern cannot start with '*' or be a global '*' wildcard; must have a static prefix"@
                } else {
                    exists|i: int| #[trigger]
                        sound_before(segments(bytes), i) && refused_segment(
                            segments(bytes),
                            i,
                            pattern@,
                            text@,
                        )
                }
            }
        },
{
    let bytes = encode_utf8(pattern@);
    lemma_rules(bytes);
    if bytes.len() > 0 && bytes != any_number() && bytes[0] != '*' as u8 {
        let segs = segments(bytes);
        assert(segs.skip(0) =~= segs);
        assert(sound_before(segs, 0));
        lemma_first_fault(segs, 0);
        if let Some(fault) = pattern_fault(bytes) {
            let i = choose|i: int| #[trigger] sound_before(segs, i) && fault_at(segs, i, fault);
            assert(sound_before(segs, i) && fault_at(segs, i, fault));
        }
    }
}

/// Whether the text says what is wrong with segment `i`: it is empty, it follows `**`, or it
/// holds `*` and more.
pub open spec fn refused_segment(
    segs: Seq<Seq<u8>>,
    i: int,
    pattern: Seq<char>,
    text: Seq<char>,
) -> bool {
    &&& 0 <= i < segs.len()
    &&& if segs[i].len() == 0 {
        text == "Empty segment in pattern '"@ + pattern + "'"@
    } else if i > 0 && segs[i - 1] == any_number() {
        text == "'**' must be the last segment in pattern '"@ + pattern + "'"@
    } else {
        &&& holds_star(segs[i]) && segs[i] != any_one() && segs[i] != any_number()
        &&& text == "Invalid wildcard segment '"@ + bytes_text(segs[i]) + "' in pattern '"@
            + pattern + "'"@
    }
}

/// An address is a pattern exactly if it holds `*`.
pub proof fn law_patterns_hold_a_star(address: &str, r: bool)
    requires
        call_ensures(is_wildcard, (address,), r),
    ensures
        r <==> holds_star(encode_utf8(address@)),
{
}

} // verus!
