//! Matching of addresses and patterns.

use arcella_broker::broker_core::registry::error::RegistryError;
use arcella_broker::broker_core::registry::pattern::{
    compare_segments_bytes, is_wildcard, validate_wildcard_pattern,
};
use arcella_broker::broker_core::registry::LocalRegistry;

/// Checks whether a concrete address matches a wildcard pattern.
fn pattern_matches(pattern: &[u8], address: &[u8]) -> Result<bool, RegistryError> {
    let p1 = String::from_utf8_lossy(pattern);
    validate_wildcard_pattern(&p1)?;
    Ok(compare_segments_bytes(pattern, address, false))
}

/// Checks whether two wildcard patterns can ever match the same concrete address.
fn patterns_conflict(pattern1: &[u8], pattern2: &[u8]) -> Result<bool, RegistryError> {
    let p1 = String::from_utf8_lossy(pattern1);
    let p2 = String::from_utf8_lossy(pattern2);
    validate_wildcard_pattern(&p1)?;
    validate_wildcard_pattern(&p2)?;
    Ok(compare_segments_bytes(pattern1, pattern2, true))
}

#[test]
fn exact_match() {
    assert!(LocalRegistry::matches(b"arcella", b"arcella").unwrap());
    assert!(LocalRegistry::matches(b"arcella:core:users", b"arcella:core:users").unwrap());

    assert!(!LocalRegistry::matches(b"arcella:core:users", b"arcella:core:admin").unwrap());
    assert!(!LocalRegistry::matches(b"Arcella", b"arcella").unwrap());
}

#[test]
fn length_mismatch() {
    assert!(!LocalRegistry::matches(b"a:b:c", b"a:b").unwrap());
    assert!(!LocalRegistry::matches(b"a:b", b"a:b:c").unwrap());
}

#[test]
fn empty_strings() {
    assert!(LocalRegistry::matches(b"", b"").is_err());
    assert!(LocalRegistry::matches(b"a::b", b"a:b").is_err());
    assert!(LocalRegistry::matches(b"", b"a:b").is_err());

    assert!(!LocalRegistry::matches(b"a:b", b"").unwrap());
    assert!(!LocalRegistry::matches(b"a", b"").unwrap());
    assert!(!LocalRegistry::matches(b"a:b", b"a::b").unwrap());
}

#[test]
fn single_segment_wildcard() {
    assert!(LocalRegistry::matches(b"a:*:c", b"a:b:c").unwrap());
    assert!(LocalRegistry::matches(b"a:b:*", b"a:b:c").unwrap());

    assert!(LocalRegistry::matches(b"*", b"a").is_err());
    assert!(LocalRegistry::matches(b"*:b:c", b"a:b:c").is_err());
    assert!(LocalRegistry::matches(b"*:*:*", b"a:b:c").is_err());

    assert!(!LocalRegistry::matches(b"a:*:d", b"a:b:c").unwrap());
    assert!(!LocalRegistry::matches(b"a:*:d", b"a:b:c:d").unwrap());
    assert!(!LocalRegistry::matches(b"a:*:d", b"a:d").unwrap());
}

#[test]
fn multi_segment_wildcard() {
    assert!(LocalRegistry::matches(b"a:**", b"a").unwrap());
    assert!(LocalRegistry::matches(b"a:b:**", b"a:b").unwrap());
    assert!(LocalRegistry::matches(b"a:b:**", b"a:b:c").unwrap());
    assert!(LocalRegistry::matches(b"a:b:**", b"a:b:c:d:e").unwrap());
    assert!(LocalRegistry::matches(b"a:**", b"a:b:c:d:e").unwrap());

    assert!(LocalRegistry::matches(b"**", b"a").is_err());
    assert!(LocalRegistry::matches(b"**", b"a:b:c:d").is_err());

    assert!(!LocalRegistry::matches(b"a:b:**", b"a").unwrap());
    assert!(!LocalRegistry::matches(b"a:b:**", b"x:b:c").unwrap());
}

#[test]
fn star_and_starstar_combined() {
    assert!(LocalRegistry::matches(b"a:*:c:**", b"a:b:c:d:e").unwrap());

    assert!(LocalRegistry::matches(b"*:b:**", b"a:b:c:d:e").is_err());
    assert!(LocalRegistry::matches(b"*:**", b"x:y:z").is_err());

    assert!(LocalRegistry::patterns_conflict_bytes(b"a:b:c:*", b"a:**").unwrap());
}

#[test]
fn invalid_patterns() {
    assert!(LocalRegistry::matches(b"a:**:b", b"a:b").is_err());
    assert!(LocalRegistry::matches(b"a:*:b:", b"a:b").is_err());
    assert!(LocalRegistry::matches(b"**:a:**", b"a:b").is_err());
    assert!(LocalRegistry::matches(b"a:**:**", b"a:b").is_err());
}

#[test]
fn mod_exact_match() {
    assert!(pattern_matches(b"arcella", b"arcella").unwrap());
    assert!(pattern_matches(b"arcella:core:users", b"arcella:core:users").unwrap());

    assert!(!pattern_matches(b"arcella:core:users", b"arcella:core:admin").unwrap());
    assert!(!pattern_matches(b"Arcella", b"arcella").unwrap());
}

#[test]
fn mod_length_mismatch() {
    assert!(!pattern_matches(b"a:b:c", b"a:b").unwrap());
    assert!(!pattern_matches(b"a:b", b"a:b:c").unwrap());
}

#[test]
fn mod_empty_strings() {
    assert!(pattern_matches(b"", b"").is_err());
    assert!(pattern_matches(b"a::b", b"a:b").is_err());
    assert!(pattern_matches(b"", b"a:b").is_err());

    assert!(!pattern_matches(b"a:b", b"").unwrap());
    assert!(!pattern_matches(b"a", b"").unwrap());
    assert!(!pattern_matches(b"a:b", b"a::b").unwrap());
}

#[test]
fn mod_single_segment_wildcard() {
    assert!(pattern_matches(b"a:*:c", b"a:b:c").unwrap());
    assert!(pattern_matches(b"a:b:*", b"a:b:c").unwrap());

    assert!(pattern_matches(b"*", b"a").is_err());
    assert!(pattern_matches(b"*:b:c", b"a:b:c").is_err());
    assert!(pattern_matches(b"*:*:*", b"a:b:c").is_err());

    assert!(!pattern_matches(b"a:*:d", b"a:b:c").unwrap());
    assert!(!pattern_matches(b"a:*:d", b"a:b:c:d").unwrap());
    assert!(!pattern_matches(b"a:*:d", b"a:d").unwrap());
}

#[test]
fn mod_multi_segment_wildcard() {
    assert!(pattern_matches(b"a:**", b"a").unwrap());
    assert!(pattern_matches(b"a:b:**", b"a:b").unwrap());
    assert!(pattern_matches(b"a:b:**", b"a:b:c").unwrap());
    assert!(pattern_matches(b"a:b:**", b"a:b:c:d:e").unwrap());
    assert!(pattern_matches(b"a:**", b"a:b:c:d:e").unwrap());

    assert!(pattern_matches(b"**", b"a").is_err());
    assert!(pattern_matches(b"**", b"a:b:c:d").is_err());

    assert!(!pattern_matches(b"a:b:**", b"a").unwrap());
    assert!(!pattern_matches(b"a:b:**", b"x:b:c").unwrap());
}

#[test]
fn mod_star_and_starstar_combined() {
    assert!(pattern_matches(b"a:*:c:**", b"a:b:c:d:e").unwrap());

    assert!(pattern_matches(b"*:b:**", b"a:b:c:d:e").is_err());
    assert!(pattern_matches(b"*:**", b"x:y:z").is_err());

    assert!(patterns_conflict(b"a:b:c:*", b"a:**").unwrap());
}

#[test]
fn mod_invalid_patterns() {
    assert!(pattern_matches(b"a:**:b", b"a:b").is_err());
    assert!(pattern_matches(b"a:*:b:", b"a:b").is_err());
    assert!(pattern_matches(b"**:a:**", b"a:b").is_err());
    assert!(pattern_matches(b"a:**:**", b"a:b").is_err());
}

#[test]
fn documented_examples_of_matching() {
    assert!(pattern_matches(b"arcella:*:users", b"arcella:core:users").unwrap());
    assert!(pattern_matches(b"arcella:*:*", b"arcella:core:users").unwrap());
    assert!(pattern_matches(b"arcella:core:**", b"arcella:core:users").unwrap());
    assert!(pattern_matches(b"arcella:core:**", b"arcella:core").unwrap());
    assert!(!pattern_matches(b"arcella:core:**", b"arcella").unwrap());
    assert!(pattern_matches(b"arcella:core:*", b"arcella:core:users").unwrap());
    assert!(!pattern_matches(b"arcella:core:*", b"arcella:core:a:b").unwrap());
    assert!(!pattern_matches(b"arcella:web:*", b"arcella:core:users").unwrap());
}

fn fault(pattern: &str) -> String {
    match validate_wildcard_pattern(pattern) {
        Err(RegistryError::InvalidWildcardFormat(text)) => text,
        other => panic!("{:?}", other),
    }
}

#[test]
fn each_rule_is_reported_with_its_own_text() {
    assert_eq!(fault(""), "Pattern cannot be empty");
    assert_eq!(
        fault("**"),
        "Global '**' wildcard is not allowed; pattern must have at least one static prefix segment"
    );
    assert_eq!(
        fault("*:b"),
        "Pattern cannot start with '*' or be a global '*' wildcard; must have a static prefix"
    );
    assert_eq!(fault("a::*"), "Empty segment in pattern 'a::*'");
    assert_eq!(fault("a:*:"), "Empty segment in pattern 'a:*:'");
    assert_eq!(fault("a:**:b"), "'**' must be the last segment in pattern 'a:**:b'");
    assert_eq!(fault("a:b*"), "Invalid wildcard segment 'b*' in pattern 'a:b*'");
    assert_eq!(fault("a:***"), "Invalid wildcard segment '***' in pattern 'a:***'");
    assert_eq!(fault("дом:д*"), "Invalid wildcard segment 'д*' in pattern 'дом:д*'");
    assert!(validate_wildcard_pattern("a:*:b:**").is_ok());
}

#[test]
fn bytes_that_are_no_text_are_replaced_in_reports() {
    match LocalRegistry::matches(b"a:\xff*", b"a:b") {
        Err(RegistryError::InvalidWildcardFormat(text)) => assert_eq!(
            text,
            "Invalid wildcard segment '\u{fffd}*' in pattern 'a:\u{fffd}*'"
        ),
        other => panic!("{:?}", other),
    }
}

#[test]
fn only_the_pattern_is_a_wildcard() {
    assert!(!compare_segments_bytes(b"a:b", b"a:*", false));
    assert!(compare_segments_bytes(b"a:b", b"a:*", true));
    assert!(!compare_segments_bytes(b"a", b"*", false));
    assert!(compare_segments_bytes(b"a:*", b"a:*", false));
    assert!(!LocalRegistry::matches(b"a:b", b"a:*").unwrap());
    assert!(LocalRegistry::matches(b"a:*", b"a:*").unwrap());
    assert!(!LocalRegistry::matches(b"a:*:c", b"a:b:*").unwrap());
}

#[test]
fn conflicts_between_patterns() {
    assert!(LocalRegistry::patterns_conflict_bytes(b"a:*:c", b"a:b:*").unwrap());
    assert!(LocalRegistry::patterns_conflict_bytes(b"a:**", b"a:b:**").unwrap());
    assert!(!LocalRegistry::patterns_conflict_bytes(b"a:*:c", b"a:b:d").unwrap());
    assert!(!LocalRegistry::patterns_conflict_bytes(b"a:*", b"a:*:*").unwrap());
    assert!(LocalRegistry::patterns_conflict_bytes(b"a:**:b", b"a:*").is_err());
    assert!(LocalRegistry::patterns_conflict_bytes(b"a:*", b"a:**:b").is_err());
}

#[test]
fn a_star_makes_a_wildcard() {
    assert!(is_wildcard("a:*"));
    assert!(is_wildcard("a*b"));
    assert!(!is_wildcard("a:b"));
    assert!(!is_wildcard(""));
}
