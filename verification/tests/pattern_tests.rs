use vanity_miner::pattern::{first_match, parse_rule, parse_rules, rule_matches_address, Rule};

#[test]
fn parse_plain_prefix_line() {
    match parse_rule("abc") {
        Some(Rule::Prefix(p)) => assert_eq!(p, "abc"),
        _ => panic!("expected a plain prefix rule"),
    }
}

#[test]
fn parse_pair_line() {
    match parse_rule("abc...99") {
        Some(Rule::Pair(p, s)) => {
            assert_eq!(p, "abc");
            assert_eq!(s, "99");
        },
        _ => panic!("expected a prefix/suffix pair rule"),
    }
}

#[test]
fn parse_blank_line_is_ignored() {
    assert!(parse_rule("").is_none());
}

#[test]
fn parse_line_with_two_splitters_is_ignored() {
    assert!(parse_rule("a...b...c").is_none());
    assert!(parse_rule("......").is_none());
}

#[test]
fn parse_four_dots_splits_at_leftmost() {
    match parse_rule("a....b") {
        Some(Rule::Pair(p, s)) => {
            assert_eq!(p, "a");
            assert_eq!(s, ".b");
        },
        _ => panic!("expected a pair rule"),
    }
}

#[test]
fn parse_bare_splitter_matches_everything() {
    match parse_rule("...") {
        Some(Rule::Pair(p, s)) => {
            assert_eq!(p, "");
            assert_eq!(s, "");
        },
        _ => panic!("expected a pair rule"),
    }
}

#[test]
fn plain_prefix_matches() {
    let rules = vec![parse_rule("abc").unwrap()];
    assert_eq!(first_match("0xabc123...", &rules), Some(0));
}

#[test]
fn pair_rule_needs_both_ends() {
    let rules = vec![parse_rule("abc...99").unwrap()];
    assert_eq!(first_match("0xabcdef99", &rules), Some(0));
    assert_eq!(first_match("0xabcdef00", &rules), None);
}

#[test]
fn empty_rule_set_never_matches() {
    let rules: Vec<Rule> = Vec::new();
    assert_eq!(first_match("0xabcdef99", &rules), None);
    assert_eq!(first_match("", &rules), None);
    assert_eq!(first_match("anything at all", &rules), None);
}

#[test]
fn first_matching_rule_wins() {
    let lines = vec![
        String::from("zzz"),
        String::from("abc"),
        String::from("a"),
    ];
    let rules = parse_rules(&lines);
    assert_eq!(rules.len(), 3);
    assert_eq!(first_match("0xabc123", &rules), Some(1));
}

#[test]
fn rules_match_the_form_behind_the_0x_prefix() {
    let rule = parse_rule("abc").unwrap();
    assert!(rule_matches_address(&rule, "0xabc123"));
    assert!(rule_matches_address(&rule, "abc123"));
    assert!(!rule_matches_address(&rule, "0x0abc123"));
}

#[test]
fn parse_rules_keeps_order_and_drops_bad_lines() {
    let lines = vec![
        String::from(""),
        String::from("dead"),
        String::from("a...b...c"),
        String::from("beef...77"),
    ];
    let rules = parse_rules(&lines);
    assert_eq!(rules.len(), 2);
    match &rules[0] {
        Rule::Prefix(p) => assert_eq!(p, "dead"),
        _ => panic!("expected a prefix rule first"),
    }
    match &rules[1] {
        Rule::Pair(p, s) => {
            assert_eq!(p, "beef");
            assert_eq!(s, "77");
        },
        _ => panic!("expected a pair rule second"),
    }
}
