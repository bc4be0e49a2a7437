use isolate_core::composition::{validate_pattern, CompositeStrategy, CompositionRule};
use isolate_core::composition_config::{validate_composition, CompositionConfig};
use isolate_core::error::IsolateError;

#[test]
fn test_validate_pattern_valid_patterns() {
    // Valid patterns should pass
    assert!(validate_pattern("youtube").is_ok());
    assert!(validate_pattern("*.youtube.com").is_ok());
    assert!(validate_pattern("discord.gg").is_ok());
    assert!(validate_pattern("mail.google.com").is_ok());
    assert!(validate_pattern("youtube*").is_ok());
    assert!(validate_pattern("*google*").is_ok());
}

#[test]
fn test_validate_pattern_rejects_star() {
    let result = validate_pattern("*");
    assert!(result.is_err());
    let err = result.unwrap_err();
    assert!(matches!(err, IsolateError::Validation(_)));
    assert!(err.to_string().contains("too broad"));
}

#[test]
fn test_validate_pattern_rejects_double_star() {
    let result = validate_pattern("**");
    assert!(result.is_err());
    assert!(result.unwrap_err().to_string().contains("too broad"));
}

#[test]
fn test_validate_pattern_rejects_star_dot_star() {
    let result = validate_pattern("*.*");
    assert!(result.is_err());
    assert!(result.unwrap_err().to_string().contains("too broad"));
}

#[test]
fn test_validate_pattern_rejects_question_marks() {
    assert!(validate_pattern("?").is_err());
    assert!(validate_pattern("??").is_err());
    assert!(validate_pattern("???").is_err());
}

#[test]
fn test_validate_pattern_rejects_empty() {
    let result = validate_pattern("");
    assert!(result.is_err());
    assert!(result.unwrap_err().to_string().contains("empty"));
}

#[test]
fn test_validate_pattern_rejects_only_wildcards_and_dots() {
    assert!(validate_pattern("*.").is_err());
    assert!(validate_pattern(".*").is_err());
    assert!(validate_pattern("*.*.*").is_err());
}

#[test]
fn test_validate_pattern_requires_minimum_specific_chars() {
    // Single char is not enough
    assert!(validate_pattern("*.a").is_err());
    // Two chars is minimum
    assert!(validate_pattern("*.ab").is_ok());
    assert!(validate_pattern("ab*").is_ok());
}

// ============================================================================
// CompositionRule Tests
// ============================================================================

#[test]
fn test_composition_rule_exact_match() {
    let rule = CompositionRule::new("youtube", "zapret-yt");
    
    assert!(rule.matches("youtube"));
    assert!(rule.matches("YouTube")); // case insensitive
    assert!(!rule.matches("discord"));
}

#[test]
fn test_composition_rule_substring_match() {
    let rule = CompositionRule::new("google", "zapret-google");
    
    assert!(rule.matches("google.com"));
    assert!(rule.matches("mail.google.com"));
    assert!(rule.matches("GOOGLE"));
    assert!(!rule.matches("youtube.com"));
}

#[test]
fn test_composition_rule_glob_match() {
    let rule = CompositionRule::new("*.google.com", "zapret-google");
    
    assert!(rule.matches("mail.google.com"));
    assert!(rule.matches("drive.google.com"));
    assert!(!rule.matches("google.com")); // no subdomain
    assert!(!rule.matches("google.com.evil.com"));
}

#[test]
fn test_composition_rule_glob_prefix() {
    let rule = CompositionRule::new("youtube*", "zapret-yt");
    
    assert!(rule.matches("youtube.com"));
    assert!(rule.matches("youtubekids.com"));
    assert!(!rule.matches("notyoutube.com"));
}

#[test]
fn test_composition_rule_disabled() {
    let rule = CompositionRule::new("youtube", "zapret-yt")
        .with_enabled(false);
    
    assert!(!rule.matches("youtube"));
}

#[test]
fn test_composite_strategy_direct_mapping() {
    let mut comp = CompositeStrategy::new("test", "Test Composition");
    comp.add_mapping("youtube", "zapret-yt");
    comp.add_mapping("discord", "vless-discord");
    
    assert_eq!(comp.get_strategy_for_service("youtube"), Some("zapret-yt"));
    assert_eq!(comp.get_strategy_for_service("discord"), Some("vless-discord"));
    assert_eq!(comp.get_strategy_for_service("telegram"), None);
}

#[test]
fn test_composite_strategy_rules() {
    let mut comp = CompositeStrategy::new("test", "Test Composition");
    comp.add_rule(CompositionRule::new("youtube", "zapret-yt").with_priority(100));
    comp.add_rule(CompositionRule::new("discord", "vless-discord").with_priority(90));
    comp.default_strategy = Some("default-strategy".to_string());
    
    assert_eq!(comp.get_strategy_for_service("youtube.com"), Some("zapret-yt"));
    assert_eq!(comp.get_strategy_for_service("discord.gg"), Some("vless-discord"));
    assert_eq!(comp.get_strategy_for_service("unknown.com"), Some("default-strategy"));
}

#[test]
fn test_composite_strategy_priority_order() {
    let mut comp = CompositeStrategy::new("test", "Test Composition");
    
    // Add rules in wrong order
    comp.add_rule(CompositionRule::new("*", "catch-all").with_priority(10));
    comp.add_rule(CompositionRule::new("youtube", "zapret-yt").with_priority(100));
    
    // Higher priority should match first
    assert_eq!(comp.get_strategy_for_service("youtube.com"), Some("zapret-yt"));
    assert_eq!(comp.get_strategy_for_service("other.com"), Some("catch-all"));
}

#[test]
fn test_composite_strategy_mapping_over_rules() {
    let mut comp = CompositeStrategy::new("test", "Test Composition");
    comp.add_mapping("youtube", "direct-mapping");
    comp.add_rule(CompositionRule::new("youtube", "rule-mapping").with_priority(100));
    
    // Direct mapping takes precedence
    assert_eq!(comp.get_strategy_for_service("youtube"), Some("direct-mapping"));
}

#[test]
fn test_composite_strategy_get_used_strategies() {
    let mut comp = CompositeStrategy::new("test", "Test Composition");
    comp.add_mapping("youtube", "zapret-yt");
    comp.add_rule(CompositionRule::new("discord", "vless-discord"));
    comp.add_rule(CompositionRule::new("telegram", "zapret-yt")); // duplicate
    comp.default_strategy = Some("default".to_string());
    
    let used = comp.get_used_strategies();
    assert!(used.contains(&"zapret-yt"));
    assert!(used.contains(&"vless-discord"));
    assert!(used.contains(&"default"));
    // Should not have duplicates
    assert_eq!(used.iter().filter(|&&s| s == "zapret-yt").count(), 1);
}

#[test]
fn test_composition_rule_builder() {
    let rule = CompositionRule::new("youtube", "zapret-yt")
        .with_priority(150)
        .with_enabled(true)
        .with_description("YouTube via Zapret");
    
    assert_eq!(rule.service_pattern, "youtube");
    assert_eq!(rule.strategy_id, "zapret-yt");
    assert_eq!(rule.priority, 150);
    assert!(rule.enabled);
    assert_eq!(rule.description, Some("YouTube via Zapret".to_string()));
}

#[test]
fn test_add_rule_validated_accepts_valid_pattern() {
    let mut comp = CompositeStrategy::new("test", "Test");
    let rule = CompositionRule::new("*.youtube.com", "zapret-yt");
    
    let result = comp.add_rule_validated(rule);
    assert!(result.is_ok());
    assert_eq!(comp.rules.len(), 1);
}

#[test]
fn test_add_rule_validated_rejects_broad_pattern() {
    let mut comp = CompositeStrategy::new("test", "Test");
    let rule = CompositionRule::new("*", "catch-all");
    
    let result = comp.add_rule_validated(rule);
    assert!(result.is_err());
    assert_eq!(comp.rules.len(), 0); // Rule should not be added
}


fn sample_config() -> CompositionConfig {
    let mut a = CompositeStrategy::new("a", "A");
    a.add_mapping("youtube", "yt-strategy");
    a.add_rule(CompositionRule::new("discord", "dc-strategy").with_priority(70));
    let b = CompositeStrategy::new("b", "B");
    let mut config = CompositionConfig::default();
    config.upsert_composition(a);
    config.upsert_composition(b);
    config
}

#[test]
fn composition_config_default_is_empty() {
    let config = CompositionConfig::default();
    assert_eq!(config.version, "1.0");
    assert!(config.active_composition.is_none());
    assert!(config.compositions.is_empty());
    assert!(config.get_active_composition().is_none());
    assert!(config.get_rules().is_empty());
}

#[test]
fn set_active_composition_refuses_unknown_id() {
    let mut config = sample_config();
    let err = config.set_active_composition(Some("zzz".to_string())).unwrap_err();
    assert_eq!(err.to_string(), "Composition 'zzz' not found");
    assert!(config.active_composition.is_none());
    config.set_active_composition(Some("a".to_string())).unwrap();
    assert_eq!(config.get_active_composition().unwrap().name, "A");
    config.set_active_composition(None).unwrap();
    assert!(config.get_active_composition().is_none());
}

#[test]
fn upsert_replaces_by_id_and_appends_new() {
    let mut config = sample_config();
    config.upsert_composition(CompositeStrategy::new("a", "A2"));
    assert_eq!(config.compositions.len(), 2);
    assert_eq!(config.compositions[0].name, "A2");
    config.upsert_composition(CompositeStrategy::new("c", "C"));
    let ids: Vec<String> = config.get_compositions().iter().map(|c| c.id.clone()).collect();
    assert_eq!(ids, vec!["a", "b", "c"]);
}

#[test]
fn remove_composition_clears_active_and_refuses_unknown() {
    let mut config = sample_config();
    config.set_active_composition(Some("b".to_string())).unwrap();
    assert!(config.remove_composition("nope").is_err());
    assert_eq!(config.compositions.len(), 2);
    config.remove_composition("b").unwrap();
    assert_eq!(config.compositions.len(), 1);
    assert!(config.active_composition.is_none());
}

#[test]
fn set_rules_validates_sorts_and_needs_active() {
    let mut config = sample_config();
    let rules = vec![CompositionRule::new("telegram", "tg").with_priority(10)];
    let err = config.set_rules(rules).unwrap_err();
    assert_eq!(err.to_string(), "No active composition");
    config.set_active_composition(Some("a".to_string())).unwrap();
    let bad = vec![CompositionRule::new("youtube", "x"), CompositionRule::new("*", "all")];
    assert!(config.set_rules(bad).unwrap_err().to_string().contains("too broad"));
    assert_eq!(config.get_rules().len(), 1);
    let rules = vec![
        CompositionRule::new("telegram", "tg").with_priority(10),
        CompositionRule::new("instagram", "ig").with_priority(90),
        CompositionRule::new("twitter", "tw").with_priority(10),
    ];
    config.set_rules(rules).unwrap();
    let ids: Vec<String> = config.get_rules().iter().map(|r| r.strategy_id.clone()).collect();
    assert_eq!(ids, vec!["ig", "tg", "tw"]);
}

#[test]
fn apply_composition_maps_each_service_once() {
    let mut config = sample_config();
    assert_eq!(config.apply_composition(&["youtube".to_string()]).unwrap_err().to_string(), "No active composition");
    config.set_active_composition(Some("a".to_string())).unwrap();
    let services = vec!["youtube".to_string(), "discord.gg".to_string(), "other".to_string(), "youtube".to_string()];
    let applied = config.apply_composition(&services).unwrap();
    assert_eq!(
        applied,
        vec![
            ("youtube".to_string(), "yt-strategy".to_string()),
            ("discord.gg".to_string(), "dc-strategy".to_string()),
        ]
    );
    assert_eq!(config.get_strategy_for_service("discord"), Some("dc-strategy".to_string()));
    assert_eq!(config.get_strategy_for_service("other"), None);
}

#[test]
fn validate_composition_reports_every_problem() {
    let mut comp = CompositeStrategy::new("c", "C");
    comp.add_mapping("youtube", "yt");
    comp.add_rule(CompositionRule::new("discord", "dc").with_priority(60));
    comp.add_rule(CompositionRule::new("discord", "dc2").with_priority(60));
    comp.add_rule(CompositionRule::new("*", "all").with_priority(1));
    let available = vec!["yt".to_string(), "all".to_string()];
    let errors = validate_composition(&comp, &available);
    assert_eq!(
        errors,
        vec![
            "Strategy 'dc' not found".to_string(),
            "Strategy 'dc2' not found".to_string(),
            "Rule 2: Pattern '*' is too broad. Use more specific patterns like '*.youtube.com' or 'discord'".to_string(),
            "Duplicate pattern 'discord' with priority 60 at rules 0 and 1".to_string(),
        ]
    );
    let ok = CompositeStrategy::new("ok", "OK");
    assert!(validate_composition(&ok, &[]).is_empty());
}

#[test]
fn test_composition_manager_basic() {
    let mut manager = CompositionConfig::default();
    let mut comp = CompositeStrategy::new("test-comp", "Test Composition");
    comp.add_rule(CompositionRule::new("youtube", "zapret-yt"));
    comp.add_rule(CompositionRule::new("discord", "vless-discord"));
    manager.upsert_composition(comp);
    manager.set_active_composition(Some("test-comp".to_string())).unwrap();
    assert_eq!(manager.get_strategy_for_service("youtube.com"), Some("zapret-yt".to_string()));
    assert_eq!(manager.get_strategy_for_service("discord.gg"), Some("vless-discord".to_string()));
}

#[test]
fn test_composition_manager_apply() {
    let mut manager = CompositionConfig::default();
    let mut comp = CompositeStrategy::new("apply-test", "Apply Test");
    comp.add_rule(CompositionRule::new("youtube", "zapret-yt"));
    comp.add_rule(CompositionRule::new("discord", "vless-discord"));
    comp.default_strategy = Some("default".to_string());
    manager.upsert_composition(comp);
    manager.set_active_composition(Some("apply-test".to_string())).unwrap();
    let services = vec!["youtube.com".to_string(), "discord.gg".to_string(), "unknown.com".to_string()];
    let result = manager.apply_composition(&services).unwrap();
    let get = |k: &str| result.iter().find(|(s, _)| s == k).map(|(_, v)| v.clone());
    assert_eq!(get("youtube.com"), Some("zapret-yt".to_string()));
    assert_eq!(get("discord.gg"), Some("vless-discord".to_string()));
    assert_eq!(get("unknown.com"), Some("default".to_string()));
}

#[test]
fn glob_pieces_do_not_overlap() {
    let rule = CompositionRule::new("ab*ba", "s");
    assert!(!rule.matches("aba"));
    assert!(rule.matches("abba"));
    assert!(rule.matches("abxyzba"));
    assert!(!rule.matches("abab"));
    let rule = CompositionRule::new("a*b*a", "s");
    assert!(!rule.matches("aba2"));
    assert!(rule.matches("abba"));
}

#[test]
fn equal_priority_rules_keep_their_order() {
    let mut comp = CompositeStrategy::new("c", "C");
    comp.add_rule(CompositionRule::new("first", "s1").with_priority(50));
    comp.add_rule(CompositionRule::new("high", "s0").with_priority(90));
    comp.add_rule(CompositionRule::new("second", "s2").with_priority(50));
    comp.add_rule(CompositionRule::new("third", "s3").with_priority(50));
    let ids: Vec<String> = comp.rules.iter().map(|r| r.strategy_id.clone()).collect();
    assert_eq!(ids, vec!["s0", "s1", "s2", "s3"]);
}

#[test]
fn validated_rule_keeps_the_composition_fields() {
    let mut comp = CompositeStrategy::new("id", "Name");
    comp.description = "d".to_string();
    comp.enabled = false;
    comp.add_rule_validated(CompositionRule::new("*.youtube.com", "yt")).unwrap();
    assert_eq!(comp.id, "id");
    assert_eq!(comp.name, "Name");
    assert_eq!(comp.description, "d");
    assert!(!comp.enabled);
    let err = comp.add_rule_validated(CompositionRule::new("*", "all")).unwrap_err();
    assert!(matches!(err, IsolateError::Validation(_)));
    assert_eq!(comp.rules.len(), 1);
}
