//! Addresses and wildcard patterns as byte strings.
//!
//! An address is split into segments at each `:`. In a pattern the segment `*` stands for
//! exactly one segment and a final segment `**` for any number of trailing segments, none
//! included.

use vstd::prelude::*;
use vstd::slice::slice_subrange;
use vstd::string::StringExecFns;
use vstd::utf8::encode_utf8;

use super::error::RegistryError;
use crate::text::{bytes_text, utf8_lossy};

verus! {

/// The byte `:`, which separates the segments of an address.
pub const SEPARATOR: u8 = 58;

/// The byte `*`, of which the wildcard segments are made.
pub const STAR: u8 = 42;

// ---------------------------------------------------------------------------------------
// Segments
// ---------------------------------------------------------------------------------------

/// The index of the first separator of `s`, or its length if it has none.
pub open spec fn first_separator(s: Seq<u8>) -> nat
    decreases s.len(),
{
    if s.len() == 0 || s[0] == SEPARATOR {
        0
    } else {
        1 + first_separator(s.skip(1))
    }
}

/// The segments of `s`: the stretches between its separators, of which there is always at
/// least one.
pub open spec fn segments(s: Seq<u8>) -> Seq<Seq<u8>>
    decreases s.len(),
{
    let i = first_separator(s);
    if i >= s.len() {
        seq![s]
    } else {
        seq![s.take(i as int)] + segments(s.skip(i as int + 1))
    }
}

/// The segments that are left of an address of which some were taken, `None` once all were.
pub open spec fn rest_segments(rest: Option<&[u8]>) -> Seq<Seq<u8>> {
    match rest {
        Some(s) => segments(s@),
        None => Seq::empty(),
    }
}

/// The length of what is left, counted so that it shrinks with every segment taken.
pub open spec fn rest_len(rest: Option<&[u8]>) -> nat {
    match rest {
        Some(s) => s@.len() + 1,
        None => 0,
    }
}

/// The segment `*`.
pub open spec fn star() -> Seq<u8> {
    seq![STAR]
}

/// The segment `**`.
pub open spec fn starstar() -> Seq<u8> {
    seq![STAR, STAR]
}

/// Whether `s` holds the byte `*`.
pub open spec fn has_star(s: Seq<u8>) -> bool {
    s.contains(STAR)
}

/// A first separator lies at `i` when nothing before `i` is one and `i` is the end of `s` or
/// holds one.
pub proof fn lemma_first_separator(s: Seq<u8>, i: nat)
    requires
        i <= s.len(),
        forall|j: int| 0 <= j < i ==> s[j] != SEPARATOR,
        i == s.len() || s[i as int] == SEPARATOR,
    ensures
        first_separator(s) == i,
    decreases s.len(),
{
    if i > 0 {
        let t = s.skip(1);
        assert forall|j: int| 0 <= j < i - 1 implies t[j] != SEPARATOR by {
            assert(t[j] == s[j + 1]);
        }
        lemma_first_separator(t, (i - 1) as nat);
    }
}

/// What a first separator is.
pub proof fn lemma_first_separator_bounds(s: Seq<u8>)
    ensures
        first_separator(s) <= s.len(),
        forall|j: int| 0 <= j < first_separator(s) ==> s[j] != SEPARATOR,
        first_separator(s) < s.len() ==> s[first_separator(s) as int] == SEPARATOR,
    decreases s.len(),
{
    if s.len() > 0 && s[0] != SEPARATOR {
        let t = s.skip(1);
        lemma_first_separator_bounds(t);
        assert forall|j: int| 0 <= j < first_separator(s) implies s[j] != SEPARATOR by {
            if j > 0 {
                assert(t[j - 1] == s[j]);
            }
        }
    }
}

/// Takes the first segment off `s`: the segment, and what follows its separator if it has
/// one.
pub fn split_first<'a>(s: &'a [u8]) -> (r: (&'a [u8], Option<&'a [u8]>))
    ensures
        segments(s@) == seq![r.0@] + rest_segments(r.1),
        rest_len(r.1) < rest_len(Some(s)),
        !r.0@.contains(SEPARATOR),
        r.0@.is_prefix_of(s@),
{
    let mut i: usize = 0;
    while i < s.len() && s[i] != SEPARATOR
        invariant
            i <= s@.len(),
            forall|j: int| 0 <= j < i ==> s@[j] != SEPARATOR,
        decreases s@.len() - i,
    {
        i = i + 1;
    }
    proof {
        lemma_first_separator(s@, i as nat);
        assert(s@.take(i as int) =~= s@.subrange(0, i as int));
    }
    if i == s.len() {
        assert(segments(s@) =~= seq![s@] + Seq::<Seq<u8>>::empty());
        (s, None)
    } else {
        let head = slice_subrange(s, 0, i);
        let tail = slice_subrange(s, i + 1, s.len());
        assert(s@.skip(i + 1) =~= s@.subrange(i + 1, s@.len() as int));
        (head, Some(tail))
    }
}

// ---------------------------------------------------------------------------------------
// Matching
// ---------------------------------------------------------------------------------------

/// Whether two segments of patterns agree: they are equal, or one of them is `*`.
pub open spec fn segments_agree(a: Seq<u8>, b: Seq<u8>) -> bool {
    a == star() || b == star() || a == b
}

/// Whether the pattern with segments `p` covers the address with segments `t`. Only the
/// segments of `p` are wildcards; a `*` in `t` stands for itself.
pub open spec fn covers(p: Seq<Seq<u8>>, t: Seq<Seq<u8>>) -> bool
    decreases p.len(),
{
    if p.len() > 0 && p[0] == starstar() {
        p.len() == 1
    } else if p.len() == 0 || t.len() == 0 {
        p.len() == t.len()
    } else {
        (p[0] == star() || p[0] == t[0]) && covers(p.skip(1), t.skip(1))
    }
}

/// Whether the patterns with segments `p` and `q` overlap: segment by segment they agree, up
/// to the end of both or to the first `**` of either.
pub open spec fn overlap(p: Seq<Seq<u8>>, q: Seq<Seq<u8>>) -> bool
    decreases p.len(),
{
    if (p.len() > 0 && p[0] == starstar()) || (q.len() > 0 && q[0] == starstar()) {
        true
    } else if p.len() == 0 || q.len() == 0 {
        p.len() == q.len()
    } else {
        segments_agree(p[0], q[0]) && overlap(p.skip(1), q.skip(1))
    }
}

/// What the segment-by-segment comparison decides: `overlap` between two patterns, `covers`
/// between a pattern and an address.
pub open spec fn comparison(p: Seq<Seq<u8>>, t: Seq<Seq<u8>>, both: bool) -> bool {
    if both {
        overlap(p, t)
    } else {
        covers(p, t)
    }
}

/// Whether two slices hold the same bytes.
pub fn bytes_equal(a: &[u8], b: &[u8]) -> (r: bool)
    ensures
        r == (a@ == b@),
{
    if a.len() != b.len() {
        return false;
    }
    let mut i: usize = 0;
    while i < a.len()
        invariant
            i <= a@.len(),
            a@.len() == b@.len(),
            forall|j: int| 0 <= j < i ==> a@[j] == b@[j],
        decreases a@.len() - i,
    {
        if a[i] != b[i] {
            return false;
        }
        i = i + 1;
    }
    assert(a@ =~= b@);
    true
}

/// Whether a segment is `*`.
pub fn is_star(segment: &[u8]) -> (r: bool)
    ensures
        r == (segment@ == star()),
{
    let r = segment.len() == 1 && segment[0] == STAR;
    assert(r ==> segment@ =~= star());
    assert(segment@ == star() ==> segment@.len() == 1 && segment@[0] == STAR);
    r
}

/// Whether a segment is `**`.
pub fn is_starstar(segment: &[u8]) -> (r: bool)
    ensures
        r == (segment@ == starstar()),
{
    let r = segment.len() == 2 && segment[0] == STAR && segment[1] == STAR;
    assert(r ==> segment@ =~= starstar());
    assert(segment@ == starstar() ==> segment@.len() == 2 && segment@[0] == STAR && segment@[1]
        == STAR);
    r
}

/// Compares `pattern` with `target` segment by segment.
///
/// With `allow_wildcard_both_sides` both are patterns: a `*` in either one matches a segment
/// of the other, and a `**` in either one what is left of the other. Without it only
/// `pattern` is one, and `target` is an address, in which a `*` stands for itself.
pub fn compare_segments_bytes(
    pattern: &[u8],
    target: &[u8],
    allow_wildcard_both_sides: bool,
) -> (r: bool)
    ensures
        r == comparison(segments(pattern@), segments(target@), allow_wildcard_both_sides),
{
    let mut pat_rest: Option<&[u8]> = Some(pattern);
    let mut tar_rest: Option<&[u8]> = Some(target);
    loop
        invariant
            comparison(segments(pattern@), segments(target@), allow_wildcard_both_sides)
                == comparison(
                rest_segments(pat_rest),
                rest_segments(tar_rest),
                allow_wildcard_both_sides,
            ),
        decreases rest_len(pat_rest) + rest_len(tar_rest),
    {
        let ghost p = rest_segments(pat_rest);
        let ghost t = rest_segments(tar_rest);
        match (pat_rest, tar_rest) {
            (None, None) => {
                return true;
            },
            (Some(pat), None) => {
                let (a, a_rest) = split_first(pat);
                assert(p[0] == a@);
                if is_starstar(a) {
                    return allow_wildcard_both_sides || a_rest.is_none();
                }
                return false;
            },
            (None, Some(tar)) => {
                let (b, b_rest) = split_first(tar);
                assert(t[0] == b@);
                return allow_wildcard_both_sides && is_starstar(b);
            },
            (Some(pat), Some(tar)) => {
                let (a, a_rest) = split_first(pat);
                let (b, b_rest) = split_first(tar);
                proof {
                    assert(p[0] == a@);
                    assert(t[0] == b@);
                    assert(p.skip(1) =~= rest_segments(a_rest));
                    assert(t.skip(1) =~= rest_segments(b_rest));
                }
                if is_starstar(a) {
                    return allow_wildcard_both_sides || a_rest.is_none();
                }
                if allow_wildcard_both_sides && is_starstar(b) {
                    return true;
                }
                if !is_star(a) && !bytes_equal(a, b) && !(allow_wildcard_both_sides && is_star(b)) {
                    return false;
                }
                pat_rest = a_rest;
                tar_rest = b_rest;
            },
        }
    }
}

// ---------------------------------------------------------------------------------------
// Validation
// ---------------------------------------------------------------------------------------

/// A rule that a wildcard pattern breaks.
pub enum PatternFault {
    /// The pattern is empty.
    EmptyPattern,
    /// The pattern is `**`, which would match every address.
    GlobalStarStar,
    /// The pattern starts with `*`, so it has no static first segment.
    LeadingStar,
    /// A segment is empty.
    EmptySegment,
    /// A segment follows `**`.
    StarStarNotLast,
    /// This segment holds `*` beside other bytes.
    PartialWildcard(Seq<u8>),
}

/// The first rule that the segments `segs` break, `found` telling whether `**` came before.
pub open spec fn segment_fault(segs: Seq<Seq<u8>>, found: bool) -> Option<PatternFault>
    decreases segs.len(),
{
    if segs.len() == 0 {
        None
    } else if segs[0].len() == 0 {
        Some(PatternFault::EmptySegment)
    } else if found {
        Some(PatternFault::StarStarNotLast)
    } else if segs[0] != star() && segs[0] != starstar() && has_star(segs[0]) {
        Some(PatternFault::PartialWildcard(segs[0]))
    } else {
        segment_fault(segs.skip(1), segs[0] == starstar())
    }
}

/// The rule that is reported broken for `pattern`, if it breaks one.
pub open spec fn pattern_fault(pattern: Seq<u8>) -> Option<PatternFault> {
    if pattern.len() == 0 {
        Some(PatternFault::EmptyPattern)
    } else if pattern == starstar() {
        Some(PatternFault::GlobalStarStar)
    } else if pattern[0] == STAR {
        Some(PatternFault::LeadingStar)
    } else {
        segment_fault(segments(pattern), false)
    }
}

/// Whether the segments `segs` are those of a well-formed pattern: none is empty, `*` stands
/// alone in its segment, and `**` only last.
pub open spec fn valid_segments(segs: Seq<Seq<u8>>) -> bool {
    forall|i: int|
        #![trigger segs[i]]
        0 <= i < segs.len() ==> segs[i].len() > 0 && (has_star(segs[i]) ==> segs[i] == star() || (
        segs[i] == starstar() && i == segs.len() - 1))
}

/// Whether `pattern` obeys the wildcard rules: it is not empty, has no empty segment, does
/// not start with `*`, holds `*` only as a whole segment, and `**` only as the last one.
pub open spec fn valid_pattern(pattern: Seq<u8>) -> bool {
    &&& pattern.len() > 0
    &&& pattern[0] != STAR
    &&& valid_segments(segments(pattern))
}

/// The text that reports `fault` in the pattern with text `pattern`.
pub open spec fn fault_text(fault: PatternFault, pattern: Seq<char>) -> Seq<char> {
    match fault {
        PatternFault::EmptyPattern => "Pattern cannot be empty"@,
        PatternFault::GlobalStarStar =>
            "Global '**' wildcard is not allowed; pattern must have at least one static prefix segment"@,
        PatternFault::LeadingStar =>
            "Pattern cannot start with '*' or be a global '*' wildcard; must have a static prefix"@,
        PatternFault::EmptySegment => "Empty segment in pattern '"@ + pattern + "'"@,
        PatternFault::StarStarNotLast => "'**' must be the last segment in pattern '"@ + pattern
            + "'"@,
        PatternFault::PartialWildcard(segment) => "Invalid wildcard segment '"@ + bytes_text(
            segment,
        ) + "' in pattern '"@ + pattern + "'"@,
    }
}

proof fn lemma_segment_fault(segs: Seq<Seq<u8>>, found: bool)
    ensures
        segment_fault(segs, found) is None <==> valid_segments(segs) && (found ==> segs.len()
            == 0),
    decreases segs.len(),
{
    if segs.len() > 0 {
        let tail = segs.skip(1);
        lemma_segment_fault(tail, segs[0] == starstar());
        if valid_segments(segs) {
            assert forall|i: int|
                #![trigger tail[i]]
                0 <= i < tail.len() implies tail[i].len() > 0 && (has_star(tail[i]) ==> tail[i]
                == star() || (tail[i] == starstar() && i == tail.len() - 1)) by {
                assert(tail[i] == segs[i + 1]);
            }
            assert(segs[0].len() > 0);
            if segs[0] == starstar() {
                assert(segs[0][0] == STAR);
                assert(has_star(segs[0]));
                assert(segs[0].len() != star().len());
                assert(segs.len() == 1);
            }
        }
        if segment_fault(segs, found) is None {
            assert forall|i: int|
                #![trigger segs[i]]
                0 <= i < segs.len() implies segs[i].len() > 0 && (has_star(segs[i]) ==> segs[i]
                == star() || (segs[i] == starstar() && i == segs.len() - 1)) by {
                if i > 0 {
                    assert(segs[i] == tail[i - 1]);
                }
            }
        }
    }
}

/// A pattern breaks no rule exactly if it obeys all of them.
pub proof fn lemma_pattern_fault(pattern: Seq<u8>)
    ensures
        pattern_fault(pattern) is None <==> valid_pattern(pattern),
{
    if pattern.len() > 0 && pattern[0] != STAR {
        assert(pattern != starstar()) by {
            assert(starstar()[0] == STAR);
        }
        lemma_segment_fault(segments(pattern), false);
    }
}

/// Whether a slice holds the byte `*`.
pub fn contains_star(s: &[u8]) -> (r: bool)
    ensures
        r == has_star(s@),
{
    let mut i: usize = 0;
    while i < s.len()
        invariant
            i <= s@.len(),
            forall|j: int| 0 <= j < i ==> s@[j] != STAR,
        decreases s@.len() - i,
    {
        if s[i] == STAR {
            assert(s@[i as int] == STAR);
            return true;
        }
        i = i + 1;
    }
    false
}

/// Builds the report of a fault of the form "`before`pattern'".
fn report(before: &str, pattern: &[u8]) -> (r: RegistryError)
    ensures
        r matches RegistryError::InvalidWildcardFormat(text) && text@ == before@ + bytes_text(
            pattern@,
        ) + "'"@,
{
    let mut text = String::from_str(before);
    text.append(utf8_lossy(pattern).as_str());
    text.append("'");
    RegistryError::InvalidWildcardFormat(text)
}

/// Checks a wildcard pattern, given by its bytes, against the syntax rules.
pub fn validate_pattern_bytes(pattern: &[u8]) -> (r: Result<(), RegistryError>)
    ensures
        r is Ok <==> valid_pattern(pattern@),
        match pattern_fault(pattern@) {
            None => r is Ok,
            Some(fault) => r matches Err(RegistryError::InvalidWildcardFormat(text)) && text@
                == fault_text(fault, bytes_text(pattern@)),
        },
{
    proof {
        lemma_pattern_fault(pattern@);
    }
    if pattern.len() == 0 {
        return Err(
            RegistryError::InvalidWildcardFormat(String::from_str("Pattern cannot be empty")),
        );
    }
    if is_starstar(pattern) {
        return Err(
            RegistryError::InvalidWildcardFormat(
                String::from_str(
                    "Global '**' wildcard is not allowed; pattern must have at least one static prefix segment",
                ),
            ),
        );
    }
    if pattern[0] == STAR {
        return Err(
            RegistryError::InvalidWildcardFormat(
                String::from_str(
                    "Pattern cannot start with '*' or be a global '*' wildcard; must have a static prefix",
                ),
            ),
        );
    }
    let mut found_starstar: bool = false;
    let mut rest: Option<&[u8]> = Some(pattern);
    while rest.is_some()
        invariant
            pattern_fault(pattern@) == segment_fault(rest_segments(rest), found_starstar),
            pattern_fault(pattern@) is None <==> valid_pattern(pattern@),
        decreases rest_len(rest),
    {
        let ghost segs = rest_segments(rest);
        let (segment, tail) = split_first(rest.unwrap());
        proof {
            assert(segs[0] == segment@);
            assert(segs.skip(1) =~= rest_segments(tail));
        }
        if segment.len() == 0 {
            return Err(report("Empty segment in pattern '", pattern));
        }
        if found_starstar {
            return Err(report("'**' must be the last segment in pattern '", pattern));
        }
        if is_starstar(segment) {
            found_starstar = true;
        } else if !is_star(segment) && contains_star(segment) {
            let mut before = String::from_str("Invalid wildcard segment '");
            before.append(utf8_lossy(segment).as_str());
            before.append("' in pattern '");
            return Err(report(before.as_str(), pattern));
        }
        rest = tail;
    }
    Ok(())
}

/// Checks a wildcard pattern against the syntax rules.
pub fn validate_wildcard_pattern(pattern: &str) -> (r: Result<(), RegistryError>)
    ensures
        r is Ok <==> valid_pattern(encode_utf8(pattern@)),
        match pattern_fault(encode_utf8(pattern@)) {
            None => r is Ok,
            Some(fault) => r matches Err(RegistryError::InvalidWildcardFormat(text)) && text@
                == fault_text(fault, pattern@),
        },
{
    broadcast use vstd::utf8::encode_utf8_valid_utf8, vstd::utf8::encode_utf8_decode_utf8;

    validate_pattern_bytes(pattern.as_bytes())
}

/// Whether an address holds the byte `*` and so is a pattern.
pub fn is_wildcard(address: &str) -> (r: bool)
    ensures
        r == has_star(encode_utf8(address@)),
{
    contains_star(address.as_bytes())
}

} // verus!
