use std::collections::HashMap;

use isolate_core::models::{
    LaunchTemplate, ModeCapabilities, Strategy, StrategyEngine, StrategyFamily, StrategyRequirements,
};
use std::time::{Duration, Instant};

use isolate_core::prewarming::{validate_for_prewarm, PrewarmedStrategy, PrewarmingManager};

fn strategy(id: &str, name: &str, with_template: bool) -> Strategy {
    Strategy {
        id: id.to_string(),
        name: name.to_string(),
        description: "d".to_string(),
        family: StrategyFamily::DnsBypass,
        engine: StrategyEngine::Zapret,
        mode_capabilities: ModeCapabilities { supports_socks: true, supports_global: true },
        socks_template: if with_template {
            Some(LaunchTemplate {
                binary: "b".to_string(),
                args: vec![],
                env: HashMap::new(),
                log_file: None,
                requires_admin: false,
            })
        } else {
            None
        },
        global_template: None,
        requirements: StrategyRequirements::default(),
        weight_hint: 100,
        services: vec![],
    }
}

#[test]
fn fresh_entry_is_not_expired() {
    let p = PrewarmedStrategy::new(strategy("a", "A", true), 300_000_000_000);
    assert!(p.ready);
    assert!(!p.is_expired());
    assert!(p.remaining_ttl() > 0);
    assert!(p.remaining_ttl() <= 300_000_000_000);
}

#[test]
fn expiry_by_elapsed_time() {
    let p = PrewarmedStrategy::with_error(strategy("a", "A", true), "bad".to_string(), 1_000_000_000);
    assert!(!p.ready);
    assert!(!p.is_expired_after(1_000_000_000));
    assert!(p.is_expired_after(1_000_000_001));
    assert_eq!(p.remaining_ttl_after(400_000_000), 600_000_000);
    assert_eq!(p.remaining_ttl_after(2_000_000_000), 0);
    let info = p.info_with_remaining(p.remaining_ttl_after(0));
    assert_eq!(info.remaining_ttl_secs, 1);
    assert_eq!(info.error, Some("bad".to_string()));
    assert_eq!(info.strategy_name, "A");
}

#[test]
fn zero_ttl_entry_expires_once_time_passes() {
    let p = PrewarmedStrategy::new(strategy("z", "Z", true), 0);
    let mut spins: u64 = 0;
    while !p.is_expired() {
        spins += 1;
        assert!(spins < 1_000_000_000);
    }
    assert_eq!(p.remaining_ttl(), 0);
}

#[test]
fn prewarm_validation() {
    assert!(validate_for_prewarm(&strategy("a", "A", true)).is_ok());
    assert_eq!(validate_for_prewarm(&strategy("a", "A", false)).unwrap_err().to_string(), "Strategy has no launch templates");
    assert_eq!(validate_for_prewarm(&strategy("", "A", true)).unwrap_err().to_string(), "Strategy ID cannot be empty");
    assert_eq!(validate_for_prewarm(&strategy("a", "", true)).unwrap_err().to_string(), "Strategy name cannot be empty");
}

fn create_test_strategy(id: &str, name: &str) -> Strategy {
    let mut s = strategy(id, name, true);
    s.description = "Test strategy".to_string();
    s.services = vec!["youtube".to_string()];
    s
}

fn wait_past(d: Duration) {
    let t = Instant::now();
    while t.elapsed() <= d {}
}

#[test]
fn test_prewarm_strategy() {
    let mut manager = PrewarmingManager::new();
    let info = manager.prewarm_strategy(create_test_strategy("test-1", "Test Strategy 1")).unwrap();
    assert_eq!(info.strategy_id, "test-1");
    assert_eq!(info.strategy_name, "Test Strategy 1");
    assert!(info.ready);
    assert!(info.error.is_none());
    assert!(info.remaining_ttl_secs > 0);
}

#[test]
fn test_get_prewarmed() {
    let mut manager = PrewarmingManager::new();
    manager.prewarm_strategy(create_test_strategy("test-2", "Test Strategy 2")).unwrap();
    let prewarmed = manager.get_prewarmed("test-2");
    assert!(prewarmed.is_some());
    let prewarmed = prewarmed.unwrap();
    assert_eq!(prewarmed.strategy.id, "test-2");
    assert!(prewarmed.ready);
}

#[test]
fn test_get_prewarmed_not_found() {
    let manager = PrewarmingManager::new();
    assert!(manager.get_prewarmed("non-existent").is_none());
}

#[test]
fn test_is_prewarmed() {
    let mut manager = PrewarmingManager::new();
    assert!(!manager.is_prewarmed("test-3"));
    manager.prewarm_strategy(create_test_strategy("test-3", "Test Strategy 3")).unwrap();
    assert!(manager.is_prewarmed("test-3"));
}

#[test]
fn test_clear_all() {
    let mut manager = PrewarmingManager::new();
    manager.prewarm_strategy(create_test_strategy("test-4", "Test 4")).unwrap();
    manager.prewarm_strategy(create_test_strategy("test-5", "Test 5")).unwrap();
    assert_eq!(manager.count(), 2);
    manager.clear_all();
    assert_eq!(manager.count(), 0);
}

#[test]
fn test_remove() {
    let mut manager = PrewarmingManager::new();
    manager.prewarm_strategy(create_test_strategy("test-6", "Test Strategy 6")).unwrap();
    assert!(manager.is_prewarmed("test-6"));
    assert!(manager.remove("test-6"));
    assert!(!manager.is_prewarmed("test-6"));
    assert!(!manager.remove("test-6"));
}

#[test]
fn test_get_all_prewarmed() {
    let mut manager = PrewarmingManager::new();
    manager.prewarm_strategy(create_test_strategy("test-7", "Test 7")).unwrap();
    manager.prewarm_strategy(create_test_strategy("test-8", "Test 8")).unwrap();
    let all = manager.get_all_prewarmed();
    assert_eq!(all.len(), 2);
    let ids: Vec<_> = all.iter().map(|p| p.strategy_id.as_str()).collect();
    assert!(ids.contains(&"test-7"));
    assert!(ids.contains(&"test-8"));
}

#[test]
fn test_validation_no_templates() {
    let mut manager = PrewarmingManager::new();
    let mut strategy = create_test_strategy("test-9", "Test 9");
    strategy.socks_template = None;
    strategy.global_template = None;
    let info = manager.prewarm_strategy(strategy).unwrap();
    assert!(!info.ready);
    assert!(info.error.is_some());
    assert!(info.error.unwrap().contains("no launch templates"));
}

#[test]
fn test_validation_empty_id() {
    let mut manager = PrewarmingManager::new();
    let info = manager.prewarm_strategy(create_test_strategy("", "Test")).unwrap();
    assert!(!info.ready);
    assert!(info.error.is_some());
    assert!(info.error.unwrap().contains("ID cannot be empty"));
}

#[test]
fn test_ttl_expiration() {
    let mut manager = PrewarmingManager::with_ttl(1);
    manager.prewarm_strategy(create_test_strategy("test-10", "Test 10")).unwrap();
    assert!(manager.is_prewarmed("test-10"));
    wait_past(Duration::from_millis(1100));
    assert!(!manager.is_prewarmed("test-10"));
    assert!(manager.get_prewarmed("test-10").is_none());
}

#[test]
fn test_cleanup_expired() {
    let mut manager = PrewarmingManager::with_ttl(1);
    manager.prewarm_strategy(create_test_strategy("test-11", "Test 11")).unwrap();
    wait_past(Duration::from_millis(1100));
    assert_eq!(manager.cleanup_expired(), 1);
    assert_eq!(manager.count(), 0);
}

#[test]
fn test_prewarm_already_cached() {
    let mut manager = PrewarmingManager::new();
    let info1 = manager.prewarm_strategy(create_test_strategy("test-12", "Test 12")).unwrap();
    let info2 = manager.prewarm_strategy(create_test_strategy("test-12", "Test 12")).unwrap();
    assert_eq!(info1.strategy_id, info2.strategy_id);
    assert!(info2.remaining_ttl_secs <= info1.remaining_ttl_secs);
    assert_eq!(manager.count(), 1);
}

#[test]
fn expired_entry_is_replaced_by_a_fresh_one() {
    let mut manager = PrewarmingManager::with_ttl(1);
    manager.prewarm_strategy(create_test_strategy("swap", "Old name")).unwrap();
    manager.prewarm_strategy(create_test_strategy("other", "Other")).unwrap();
    wait_past(Duration::from_millis(1100));
    let info = manager.prewarm_strategy(create_test_strategy("swap", "New name")).unwrap();
    assert_eq!(info.strategy_name, "New name");
    assert_eq!(manager.get_prewarmed("swap").unwrap().strategy.name, "New name");
    // the other entry expired and is dropped; the refreshed one stays
    assert_eq!(manager.cleanup_expired(), 1);
    assert_eq!(manager.count(), 1);
    assert!(manager.is_prewarmed("swap"));
}

#[test]
fn any_whole_second_ttl_is_accepted() {
    let mut manager = PrewarmingManager::with_ttl(u64::MAX);
    let info = manager.prewarm_strategy(create_test_strategy("long", "Long")).unwrap();
    assert!(info.ready);
    assert!(info.remaining_ttl_secs <= u64::MAX);
    assert!(info.remaining_ttl_secs > u64::MAX - 10);
    assert!(manager.is_prewarmed("long"));
}
