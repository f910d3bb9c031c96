use a3s_event::pattern::matches_pattern;

#[test]
fn test_pattern_matching() {
    assert!(matches_pattern("session.*", "session.123"));
    assert!(matches_pattern("*", "anything"));
    assert!(!matches_pattern("session.123", "session.456"));
}

#[test]
fn test_pattern_matching_exact() {
    assert!(matches_pattern("a.b.c", "a.b.c"));
    assert!(!matches_pattern("a.b.c", "a.b.d"));
}

#[test]
fn test_pattern_matching_wildcard_at_end() {
    assert!(matches_pattern("session.*", "session.abc"));
    assert!(matches_pattern("session.*", "session.123"));
}

#[test]
fn test_pattern_matching_star_matches_all() {
    assert!(matches_pattern("*", "anything"));
    assert!(matches_pattern("*", "hello"));
    assert!(matches_pattern("*", "x"));
}

#[test]
fn test_pattern_matching_length_mismatch() {
    assert!(!matches_pattern("a.b", "a.b.c"));
    assert!(!matches_pattern("a.b.c", "a.b"));
}

#[test]
fn filter_star_matches_any_pattern() {
    assert!(matches_pattern("a.b.c", "*"));
    assert!(matches_pattern("", "*"));
}

#[test]
fn wildcard_only_counts_on_the_pattern_side() {
    assert!(!matches_pattern("session.123", "session.*"));
    assert!(matches_pattern("*.b", "a.b"));
    assert!(matches_pattern("a.*.c", "a.x.c"));
    assert!(!matches_pattern("a.*.c", "a.x.d"));
}

#[test]
fn every_subject_matches_itself() {
    for s in ["", ".", "a", "a.b", "a..b", "x.y.z.", "ünï.cödé"] {
        assert!(matches_pattern(s, s));
    }
}

#[test]
fn empty_segments_count() {
    assert!(matches_pattern("a..b", "a..b"));
    assert!(!matches_pattern("a..b", "a.b"));
    assert!(matches_pattern("a.*.b", "a..b"));
    assert!(!matches_pattern("", "a"));
    assert!(matches_pattern("*.", "x."));
}

#[test]
fn star_inside_a_segment_is_literal() {
    assert!(!matches_pattern("a*", "ab"));
    assert!(matches_pattern("a*", "a*"));
    assert!(!matches_pattern("**", "x"));
}

#[test]
fn concrete_pattern_matches_only_identical_subject() {
    let subjects = ["a", "a.b", "a.c", "b.a", "a.b.c", "session.1"];
    for p in subjects {
        for f in subjects {
            assert_eq!(matches_pattern(p, f), p == f);
        }
    }
}
