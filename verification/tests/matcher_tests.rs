use dns_gate::matcher::DomainRule;

#[test]
fn test_domain_rule() {
    let value = vec!["example.com".to_string(), "test.org".to_string()];
    let rule = DomainRule::new(value);

    let match_result = rule.search_domain("example.com");
    assert!(match_result.is_some());
    assert!(rule.search_domain("exampl").is_none());

    let match_result = match_result.unwrap();
    assert_eq!(
        rule.get_domain_by_index(match_result.index),
        Some(&"example.com".to_string())
    );
}

#[test]
fn exact_hits_carry_index_and_length() {
    let rule = DomainRule::new(vec!["example.com".to_string(), "test.org".to_string()]);

    let hit = rule.search_domain("example.com").unwrap();
    assert_eq!(hit.index, 0);
    assert_eq!(hit.matched_len, 11);

    let hit = rule.search_domain("test.org").unwrap();
    assert_eq!(hit.index, 1);
    assert_eq!(hit.matched_len, 8);

    assert!(rule.search_domain("exampl").is_none());
    assert!(rule.search_domain("example.com.").is_none());
}

#[test]
fn prefixes_and_extensions_miss() {
    let rule = DomainRule::new(vec!["abc".to_string()]);
    assert!(rule.search_domain("a").is_none());
    assert!(rule.search_domain("ab").is_none());
    assert!(rule.search_domain("abcd").is_none());
    assert!(rule.search_domain("abc.def").is_none());
    assert!(rule.search_domain("abc").is_some());
}

#[test]
fn empty_dictionary_matches_nothing() {
    let rule = DomainRule::new(Vec::new());
    assert!(rule.search_domain("").is_none());
    assert!(rule.search_domain("example.com").is_none());
    assert!(rule.search_domain("a").is_none());
}

#[test]
fn empty_string_key_matches_only_when_inserted() {
    let rule = DomainRule::new(vec!["".to_string(), "a".to_string()]);
    let hit = rule.search_domain("").unwrap();
    assert_eq!(hit.index, 0);
    assert_eq!(hit.matched_len, 0);

    let hit = rule.search_domain("a").unwrap();
    assert_eq!(hit.index, 1);

    let other = DomainRule::new(vec!["a".to_string()]);
    assert!(other.search_domain("").is_none());
}

#[test]
fn duplicate_keys_resolve_first_wins() {
    let rule = DomainRule::new(vec![
        "alpha".to_string(),
        "beta".to_string(),
        "alpha".to_string(),
    ]);
    let hit = rule.search_domain("alpha").unwrap();
    assert_eq!(hit.index, 0);
    let hit = rule.search_domain("beta").unwrap();
    assert_eq!(hit.index, 1);
    assert_eq!(rule.get_domain_by_index(2), Some(&"alpha".to_string()));
}

#[test]
fn reverse_lookup_follows_the_build_option() {
    let dict = vec!["example.com".to_string(), "test.org".to_string()];
    let with = DomainRule::with_options(dict.clone(), true);
    assert_eq!(with.get_domain_by_index(0), Some(&"example.com".to_string()));
    assert_eq!(with.get_domain_by_index(1), Some(&"test.org".to_string()));
    assert_eq!(with.get_domain_by_index(2), None);
    assert_eq!(with.get_domain_by_index(-1), None);

    let without = DomainRule::with_options(dict, false);
    assert_eq!(without.get_domain_by_index(0), None);
    assert!(without.search_domain("example.com").is_some());
}

#[test]
fn nul_bearing_keys_and_queries_stay_exact() {
    let rule = DomainRule::new(vec![
        "a".to_string(),
        "a\u{0}b".to_string(),
        "b".to_string(),
    ]);

    // A key holding a NUL is found exactly, nothing else.
    let hit = rule.search_domain("a\u{0}b").unwrap();
    assert_eq!(hit.index, 1);
    assert_eq!(hit.matched_len, 3);

    // Plain keys beside it are untouched.
    assert_eq!(rule.search_domain("a").unwrap().index, 0);
    assert_eq!(rule.search_domain("b").unwrap().index, 2);

    // NUL-extended or NUL-truncated neighbours miss.
    assert!(rule.search_domain("a\u{0}").is_none());
    assert!(rule.search_domain("b\u{0}").is_none());
    assert!(rule.search_domain("\u{0}").is_none());
    assert!(rule.search_domain("a\u{0}b\u{0}").is_none());
}

#[test]
fn nul_queries_miss_a_nul_free_dictionary() {
    let mut dict = Vec::new();
    for i in 0..1000 {
        dict.push(format!("host{}.example", i));
    }
    dict.push("b".to_string());
    let rule = DomainRule::new(dict);
    assert_eq!(rule.search_domain("b").unwrap().index, 1000);
    assert!(rule.search_domain("b\u{0}").is_none());
    assert!(rule.search_domain("host1.example\u{0}").is_none());
}
