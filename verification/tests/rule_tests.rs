use jamo_compose::workspace::{
    compile_anchored, count_matches, matches_regex, to_match_str, Condition, ConditionEntry,
    ConfigError, GlyphConfig,
};

fn rules(list: &[(&str, u32)]) -> Vec<(String, u32)> {
    list.iter().map(|(p, v)| (p.to_string(), *v)).collect()
}

fn priorities(config: &GlyphConfig) -> Vec<u32> {
    config.conditions.iter().map(|e| e.priority).collect()
}

fn variants(config: &GlyphConfig) -> Vec<Option<u32>> {
    config.conditions.iter().map(|e| e.variant).collect()
}

#[test]
fn match_string_has_three_characters() {
    assert_eq!(to_match_str(0, 0, 0), Some("ㄱㅏ0".to_string()));
    assert_eq!(to_match_str(18, 20, 27), Some("ㅎㅣㅎ".to_string()));
    assert_eq!(to_match_str(11, 8, 4), Some("ㅇㅗㄴ".to_string()));
    assert_eq!(to_match_str(0, 0, 0).unwrap().chars().count(), 3);
}

#[test]
fn match_string_of_a_triple_outside_the_tables_is_none() {
    assert_eq!(to_match_str(19, 0, 0), None);
    assert_eq!(to_match_str(0, 21, 0), None);
    assert_eq!(to_match_str(0, 0, 28), None);
    assert_eq!(to_match_str(u32::MAX, u32::MAX, u32::MAX), None);
}

#[test]
fn always_matches_every_valid_triple_and_no_other() {
    let always = Condition::Always;
    assert!(always.matches(0, 0, 0));
    assert!(always.matches(18, 20, 27));
    assert!(!always.matches(19, 0, 0));
    assert!(!always.matches(0, 21, 0));
    assert!(!always.matches(0, 0, 28));
}

#[test]
fn regex_condition_matches_the_whole_match_string() {
    let giyeok = Condition::regex("ㄱ..").ok().unwrap();
    assert!(giyeok.matches(0, 0, 0));
    assert!(giyeok.matches(0, 20, 27));
    assert!(!giyeok.matches(1, 0, 0));
    // a final giyeok is no initial giyeok
    assert!(!giyeok.matches(2, 0, 1));
}

#[test]
fn regex_condition_is_anchored_at_both_ends() {
    // a pattern of one character cannot cover three
    let short = Condition::regex("ㄱ").ok().unwrap();
    assert!(!short.matches(0, 0, 0));
    assert!(!short.matches(2, 0, 1));
    // the alternation stays inside the anchors
    let either = Condition::regex("ㄱ..|ㄴ").ok().unwrap();
    assert!(either.matches(0, 0, 0));
    assert!(!either.matches(2, 0, 0));
    let two = Condition::regex("ㄱㅏ").ok().unwrap();
    assert!(!two.matches(0, 0, 0));
}

#[test]
fn regex_condition_sees_the_placeholder_of_no_final() {
    let open = Condition::regex("..0").ok().unwrap();
    assert!(open.matches(3, 4, 0));
    assert!(!open.matches(3, 4, 1));
    let closed = Condition::regex("..[^0]").ok().unwrap();
    assert!(!closed.matches(3, 4, 0));
    assert!(closed.matches(3, 4, 27));
}

#[test]
fn regex_condition_never_matches_outside_the_tables() {
    let any = Condition::regex("...").ok().unwrap();
    assert!(any.matches(18, 20, 27));
    assert!(!any.matches(19, 20, 27));
    assert!(!any.matches(18, 21, 27));
    assert!(!any.matches(18, 20, 28));
}

#[test]
fn bad_pattern_is_reported_with_the_pattern_as_given() {
    match Condition::regex("ㄱ[") {
        Err(ConfigError::BadPattern { pattern, reason }) => {
            assert_eq!(pattern, "ㄱ[");
            assert!(!reason.is_empty());
        }
        _ => panic!("the pattern should have been refused"),
    }
    assert!(matches!(Condition::regex("("), Err(ConfigError::BadPattern { .. })));
    assert!(matches!(Condition::regex(")"), Err(ConfigError::BadPattern { .. })));
}

#[test]
fn pattern_that_only_parses_between_the_anchors_is_refused() {
    // unbalanced as written, balanced once the anchors' brackets are added
    for bad in [")(", "a)|(b", ")|(", "ㄱ..)|(ㄴ.."] {
        match Condition::regex(bad) {
            Err(ConfigError::BadPattern { pattern, reason }) => {
                assert_eq!(pattern, bad);
                assert!(!reason.is_empty());
            }
            _ => panic!("{:?} should have been refused", bad),
        }
        assert!(compile_anchored(bad).is_err());
    }
    match GlyphConfig::from_rules(&rules(&[("ㄱ..", 0), (")(", 1), ("...", 2)])) {
        Err(ConfigError::BadPattern { pattern, .. }) => assert_eq!(pattern, ")("),
        _ => panic!("the second pattern should have been refused"),
    }
}

#[test]
fn pattern_that_only_parses_as_written_is_refused() {
    // the comment swallows the closing anchor
    assert!(matches!(Condition::regex("(?x)ㄱ.. # initial giyeok"), Err(ConfigError::BadPattern { .. })));
}

#[test]
fn alternation_stays_inside_the_anchors() {
    let c = Condition::regex("ㄱ..|ㄴ..").ok().unwrap();
    assert!(c.matches(0, 1, 2));
    assert!(c.matches(2, 1, 2));
    assert!(!c.matches(1, 1, 2));
    let p = compile_anchored("ㄱ..|ㄴ..").ok().unwrap();
    assert_eq!(p.source(), "^(ㄱ..|ㄴ..)$");
}

#[test]
fn compiled_pattern_keeps_its_anchored_source() {
    let p = compile_anchored("ㄱ..").ok().unwrap();
    assert_eq!(p.source(), "^(ㄱ..)$");
    assert!(matches_regex(&p, 0, 5, 5));
    assert!(!matches_regex(&p, 1, 5, 5));
    assert!(!matches_regex(&p, 0, 5, 28));
}

#[test]
fn specificity_counts_matching_triples() {
    let count = |p: &str| count_matches(&compile_anchored(p).ok().unwrap());
    assert_eq!(count("..."), 19 * 21 * 28);
    assert_eq!(count("ㄱ.."), 21 * 28);
    assert_eq!(count(".ㅏ."), 19 * 28);
    assert_eq!(count("..0"), 19 * 21);
    assert_eq!(count("..[^0]"), 19 * 21 * 27);
    assert_eq!(count("ㄱㅏ0"), 1);
    assert_eq!(count("[ㄱㄴ][ㅏㅑ]."), 2 * 2 * 28);
    assert_eq!(count("x.."), 0);
    assert_eq!(count("ㄱ"), 0);
}

#[test]
fn specificity_equals_a_brute_force_count() {
    let p = compile_anchored("[ㄱㄲㅋ].[ㄱㄴ0]").ok().unwrap();
    let mut n = 0u32;
    for ini in 0..19 {
        for mid in 0..21 {
            for fin in 0..28 {
                if matches_regex(&p, ini, mid, fin) {
                    n += 1;
                }
            }
        }
    }
    assert_eq!(n, 3 * 21 * 3);
    assert_eq!(count_matches(&p), n);
}

#[test]
fn default_config_is_one_rule_that_draws_nothing() {
    let config = GlyphConfig::default();
    assert_eq!(config.conditions.len(), 1);
    assert!(matches!(config.conditions[0].condition, Condition::Always));
    assert_eq!(config.conditions[0].priority, 0);
    assert_eq!(config.conditions[0].variant, None);
    assert_eq!(config.find_variant(0, 0, 0), None);
    assert_eq!(config.find_variant(18, 20, 27), None);
}

#[test]
fn rules_are_ranked_in_the_order_given() {
    let config = GlyphConfig::from_rules(&rules(&[("...", 0), ("ㄱ..", 1), ("ㄱㅏ0", 2)])).ok().unwrap();
    assert_eq!(priorities(&config), vec![11172, 588, 1]);
    assert_eq!(variants(&config), vec![Some(0), Some(1), Some(2)]);
    assert!(config.conditions.iter().all(|e| matches!(e.condition, Condition::Regex(_))));
}

#[test]
fn no_rules_give_an_empty_config() {
    let config = GlyphConfig::from_rules(&Vec::new()).ok().unwrap();
    assert!(config.conditions.is_empty());
}

#[test]
fn first_bad_rule_ends_the_compilation() {
    match GlyphConfig::from_rules(&rules(&[("...", 0), ("(", 1), ("[", 2)])) {
        Err(ConfigError::BadPattern { pattern, .. }) => assert_eq!(pattern, "("),
        _ => panic!("the second pattern should have been refused"),
    }
}

#[test]
fn sorting_puts_the_most_specific_rule_first() {
    let config = GlyphConfig::from_rules(&rules(&[("...", 0), ("ㄱ..", 1), ("ㄱㅏ0", 2)])).ok().unwrap().sorted();
    assert_eq!(priorities(&config), vec![1, 588, 11172]);
    assert_eq!(variants(&config), vec![Some(2), Some(1), Some(0)]);
}

#[test]
fn sorting_keeps_declaration_order_among_equals() {
    let config = GlyphConfig::from_rules(&rules(&[
        ("ㄴ..", 10),
        ("...", 11),
        ("ㄱ..", 12),
        ("ㄷ..", 13),
        ("ㄱㅏ.", 14),
        ("ㄹ..", 15),
    ])).ok().unwrap().sorted();
    assert_eq!(priorities(&config), vec![28, 588, 588, 588, 588, 11172]);
    assert_eq!(variants(&config), vec![Some(14), Some(10), Some(12), Some(13), Some(15), Some(11)]);
}

#[test]
fn sorting_keeps_every_rule() {
    let entries = vec![
        ConditionEntry { condition: Condition::Always, priority: 5, variant: Some(1) },
        ConditionEntry { condition: Condition::Always, priority: 3, variant: Some(2) },
        ConditionEntry { condition: Condition::Always, priority: 5, variant: Some(3) },
        ConditionEntry { condition: Condition::Always, priority: 0, variant: None },
        ConditionEntry { condition: Condition::Always, priority: 3, variant: Some(4) },
    ];
    let config = GlyphConfig { conditions: entries }.sorted();
    assert_eq!(priorities(&config), vec![0, 3, 3, 5, 5]);
    assert_eq!(variants(&config), vec![None, Some(2), Some(4), Some(1), Some(3)]);
    let empty = GlyphConfig { conditions: Vec::new() }.sorted();
    assert!(empty.conditions.is_empty());
}

#[test]
fn first_matching_rule_decides() {
    let config = GlyphConfig::from_rules(&rules(&[("...", 0), ("ㄱ..", 1), ("ㄱㅏ0", 2)])).ok().unwrap().sorted();
    assert_eq!(config.find_variant(0, 0, 0), Some(2));
    assert_eq!(config.find_variant(0, 0, 1), Some(1));
    assert_eq!(config.find_variant(0, 5, 0), Some(1));
    assert_eq!(config.find_variant(1, 0, 0), Some(0));
    assert_eq!(config.find_variant(19, 0, 0), None);
}

#[test]
fn unsorted_list_is_tried_in_its_own_order() {
    let config = GlyphConfig::from_rules(&rules(&[("...", 0), ("ㄱ..", 1)])).ok().unwrap();
    assert_eq!(config.find_variant(0, 0, 0), Some(0));
}

#[test]
fn earlier_rule_wins_among_equally_specific_ones() {
    // both match 588 triples and both match (0, 0, 0)
    let config = GlyphConfig::from_rules(&rules(&[("...", 9), (".ㅏ[^ㄱ]", 7), ("ㄱ.[^ㄴ]", 8), (".ㅏ[^ㄴ]", 6)])).ok().unwrap();
    assert_eq!(priorities(&config), vec![11172, 19 * 27, 21 * 27, 19 * 27]);
    let sorted = config.sorted();
    assert_eq!(variants(&sorted), vec![Some(7), Some(6), Some(8), Some(9)]);
    assert_eq!(sorted.find_variant(0, 0, 0), Some(7));
    // only the later of the two equals matches a final giyeok
    assert_eq!(sorted.find_variant(0, 0, 1), Some(6));
    assert_eq!(sorted.find_variant(0, 1, 1), Some(8));
    assert_eq!(sorted.find_variant(0, 1, 4), Some(9));
}

#[test]
fn no_matching_rule_gives_no_variant() {
    let config = GlyphConfig::from_rules(&rules(&[("ㄱ..", 1)])).ok().unwrap().sorted();
    assert_eq!(config.find_variant(0, 0, 0), Some(1));
    assert_eq!(config.find_variant(1, 0, 0), None);
}

#[test]
fn zero_rules_resolve_nothing() {
    let config = GlyphConfig { conditions: Vec::new() };
    for ini in 0..19 {
        for mid in 0..21 {
            for fin in 0..28 {
                assert_eq!(config.find_variant(ini, mid, fin), None);
            }
        }
    }
}

#[test]
fn matching_rule_without_variant_gives_none() {
    let config = GlyphConfig {
        conditions: vec![
            ConditionEntry { condition: Condition::Always, priority: 0, variant: None },
            ConditionEntry { condition: Condition::regex("...").ok().unwrap(), priority: 11172, variant: Some(3) },
        ],
    };
    assert_eq!(config.find_variant(4, 4, 4), None);
}

#[test]
fn always_comes_before_every_rule_that_matches_something() {
    let mut config = GlyphConfig::from_rules(&rules(&[("ㄱ..", 1), ("x..", 2)])).ok().unwrap();
    config.conditions.push(ConditionEntry { condition: Condition::Always, priority: 0, variant: Some(5) });
    let sorted = config.sorted();
    assert_eq!(priorities(&sorted), vec![0, 0, 588]);
    assert_eq!(variants(&sorted), vec![Some(2), Some(5), Some(1)]);
    assert_eq!(sorted.find_variant(0, 0, 0), Some(5));
    assert_eq!(sorted.find_variant(7, 7, 7), Some(5));
}
