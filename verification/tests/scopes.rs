use compact_str::CompactString;
use isla::scopes::{object_storage_scope, Scope, ScopeParseError, ScopeRange, ScopeRangeSection};

fn range(s: &str) -> ScopeRange {
    s.parse().expect("valid pattern")
}

fn scope(s: &'static str) -> Scope {
    let parts: &'static [&'static str] =
        Box::leak(s.split('.').collect::<Vec<_>>().into_boxed_slice());
    Scope(parts)
}

#[test]
fn lit_exact_match() {
    assert!(range("foo").matches(scope("foo")));
}

#[test]
fn lit_mismatch() {
    assert!(!range("foo").matches(scope("bar")));
}

#[test]
fn lit_multi_segment_match() {
    assert!(range("foo.bar.baz").matches(scope("foo.bar.baz")));
}

#[test]
fn lit_multi_segment_mismatch() {
    assert!(!range("foo.bar.baz").matches(scope("foo.bar.qux")));
}

#[test]
fn lit_too_short_scope() {
    assert!(!range("foo.bar").matches(scope("foo")));
}

#[test]
fn lit_too_long_scope() {
    assert!(!range("foo").matches(scope("foo.bar")));
}

#[test]
fn any_one_matches_single_segment() {
    assert!(range("*").matches(scope("anything")));
}

#[test]
fn any_one_does_not_match_empty() {
    assert!(!range("*").matches(Scope(&[])));
}

#[test]
fn any_one_does_not_match_two_segments() {
    assert!(!range("*").matches(scope("a.b")));
}

#[test]
fn any_one_in_prefix() {
    assert!(range("*.bar").matches(scope("foo.bar")));
    assert!(!range("*.bar").matches(scope("foo.baz")));
}

#[test]
fn any_one_in_suffix() {
    assert!(range("foo.*").matches(scope("foo.anything")));
    assert!(!range("foo.*").matches(scope("bar.anything")));
}

#[test]
fn wildcard_matches_empty() {
    assert!(range("**").matches(Scope(&[])));
}

#[test]
fn wildcard_matches_one() {
    assert!(range("**").matches(scope("foo")));
}

#[test]
fn wildcard_matches_many() {
    assert!(range("**").matches(scope("a.b.c.d.e")));
}

#[test]
fn wildcard_as_prefix() {
    assert!(range("**.baz").matches(scope("baz")));
    assert!(range("**.baz").matches(scope("foo.baz")));
    assert!(range("**.baz").matches(scope("foo.bar.baz")));
    assert!(!range("**.baz").matches(scope("foo.bar")));
}

#[test]
fn wildcard_as_suffix() {
    assert!(range("foo.**").matches(scope("foo")));
    assert!(range("foo.**").matches(scope("foo.bar")));
    assert!(range("foo.**").matches(scope("foo.bar.baz")));
    assert!(!range("foo.**").matches(scope("bar")));
}

#[test]
fn wildcard_in_middle() {
    assert!(range("foo.**.baz").matches(scope("foo.baz")));
    assert!(range("foo.**.baz").matches(scope("foo.x.baz")));
    assert!(range("foo.**.baz").matches(scope("foo.x.y.baz")));
    assert!(!range("foo.**.baz").matches(scope("foo.x.y")));
}

#[test]
fn consecutive_wildcards() {
    assert!(range("**.**").matches(Scope(&[])));
    assert!(range("**.**").matches(scope("a.b.c")));
}

#[test]
fn one_or_more_rejects_empty() {
    assert!(!range("+").matches(Scope(&[])));
}

#[test]
fn one_or_more_matches_one() {
    assert!(range("+").matches(scope("foo")));
}

#[test]
fn one_or_more_matches_many() {
    assert!(range("+").matches(scope("a.b.c")));
}

#[test]
fn one_or_more_as_suffix() {
    assert!(!range("foo.+").matches(scope("foo")));
    assert!(range("foo.+").matches(scope("foo.bar")));
    assert!(range("foo.+").matches(scope("foo.bar.baz")));
}

#[test]
fn one_or_more_in_middle() {
    assert!(!range("foo.+.baz").matches(scope("foo.baz")));
    assert!(range("foo.+.baz").matches(scope("foo.x.baz")));
    assert!(range("foo.+.baz").matches(scope("foo.x.y.baz")));
}

#[test]
fn lit_then_wildcard_then_lit() {
    let r = range("@isla.**.read");
    assert!(r.matches(scope("@isla.read")));
    assert!(r.matches(scope("@isla.docs.read")));
    assert!(r.matches(scope("@isla.a.b.c.read")));
    assert!(!r.matches(scope("@isla.a.b.c.write")));
    assert!(!r.matches(scope("other.read")));
}

#[test]
fn any_one_and_wildcard_combined() {
    let r = ScopeRange::from_sections(vec![ScopeRangeSection::AnyOne, ScopeRangeSection::Wildcard]);
    assert!(r.matches(scope("ns")));
    assert!(r.matches(scope("ns.a")));
    assert!(r.matches(scope("ns.a.b.c")));
    assert!(!r.matches(Scope(&[])));
}

#[test]
fn empty_pattern_matches_empty_scope() {
    let r = ScopeRange::from_sections(vec![]);
    assert!(r.matches(Scope(&[])));
}

#[test]
fn empty_pattern_rejects_nonempty_scope() {
    let r = ScopeRange::from_sections(vec![]);
    assert!(!r.matches(scope("foo")));
}

#[test]
fn wildcard_only_matches_everything() {
    let r = range("**");
    for s in &["", "a", "a.b", "a.b.c.d.e.f"] {
        let sc = if s.is_empty() {
            Scope(&[])
        } else {
            scope(Box::leak(s.to_string().into_boxed_str()))
        };
        assert!(r.matches(sc), "should match {s:?}");
    }
}

#[test]
fn parse_all_token_types() {
    let r = range("foo.*.**.+.bar");
    assert_eq!(
        r,
        ScopeRange::from_sections(vec![
            ScopeRangeSection::Lit(CompactString::const_new("foo")),
            ScopeRangeSection::AnyOne,
            ScopeRangeSection::Wildcard,
            ScopeRangeSection::OneOrMore,
            ScopeRangeSection::Lit(CompactString::const_new("bar")),
        ])
    );
}

#[test]
fn parse_empty_segment_returns_error() {
    assert!(matches!(
        "foo..bar".parse::<ScopeRange>(),
        Err(ScopeParseError::Empty(1))
    ));
}

#[test]
fn parse_errors_point_at_the_first_empty_segment() {
    assert_eq!(ScopeRange::from_str(""), Err(ScopeParseError::Empty(0)));
    assert_eq!(ScopeRange::from_str(".a"), Err(ScopeParseError::Empty(0)));
    assert_eq!(ScopeRange::from_str("a.b."), Err(ScopeParseError::Empty(2)));
    assert_eq!(ScopeRange::from_str("a..b..c"), Err(ScopeParseError::Empty(1)));
}

#[test]
fn literal_looking_like_a_token_prefix_stays_literal() {
    let r = range("***.+x");
    assert!(r.matches(scope("***.+x")));
    assert!(!r.matches(scope("a.b")));
}

#[test]
fn system_scope_range_matches_isla_scopes() {
    assert!(object_storage_scope().is_system_scope());
    assert!(Scope(&["@isla", "anything"]).is_system_scope());
    assert!(Scope(&["@isla"]).is_system_scope());
}

#[test]
fn system_scope_range_rejects_non_isla() {
    assert!(!Scope(&["user", "read"]).is_system_scope());
    assert!(!Scope(&[]).is_system_scope());
}

#[test]
fn scopes_display_with_dots() {
    assert_eq!(object_storage_scope().to_string(), "@isla.memory_repository.object_storage");
    assert_eq!(Scope(&[]).to_string(), "");
    assert_eq!(Scope(&["a"]).to_string(), "a");
}

#[test]
fn a_displayed_scope_parses_to_a_range_that_matches_it() {
    for sc in [
        object_storage_scope(),
        Scope(&["a"]),
        Scope(&["*", "**", "+", "x"]),
        Scope(&["@isla", "vault"]),
    ] {
        let r = ScopeRange::from_str(&sc.to_string()).expect("plain segments parse");
        assert!(r.matches(sc));
    }
}

#[test]
fn parse_and_from_str_agree() {
    for p in ["a", "a.*", "**.b.+", "a..b", ""] {
        assert_eq!(p.parse::<ScopeRange>(), ScopeRange::from_str(p));
    }
}
