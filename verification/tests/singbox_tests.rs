use isolate_core::error::IsolateError;
use isolate_core::singbox::{
    allocate_port, tun_config_id, tun_config_name, SingboxInstance, SingboxManager, SingboxStatus,
};

fn instance() -> SingboxInstance {
    SingboxInstance {
        config_id: "c".to_string(),
        config_name: "C".to_string(),
        socks_port: 1080,
        status: SingboxStatus::Starting,
        pid: Some(7),
        started_at: Some(1),
        last_health_check: None,
        health_check_failures: 0,
    }
}

#[test]
fn three_failed_checks_mark_the_instance_failed() {
    let mut i = instance();
    i.record_health_check(10, false);
    i.record_health_check(11, false);
    assert_eq!(i.status, SingboxStatus::Starting);
    assert_eq!(i.health_check_failures, 2);
    i.record_health_check(12, false);
    assert_eq!(i.status, SingboxStatus::HealthCheckFailed);
    assert_eq!(i.last_health_check, Some(12));
    i.record_health_check(13, true);
    assert_eq!(i.status, SingboxStatus::Running);
    assert_eq!(i.health_check_failures, 0);
}

#[test]
fn allocate_port_skips_used_ports() {
    assert_eq!(allocate_port(1080, &[]), 1080);
    assert_eq!(allocate_port(1080, &[1080, 1081, 1083]), 1082);
    assert_eq!(allocate_port(65534, &[65534, 65535]), 65534);
    assert_eq!(allocate_port(65535, &[]), 65535);
}

#[test]
fn test_port_allocation() {
    let mut manager = SingboxManager::new();
    assert_eq!(manager.allocate_port(1080), 1080);
    manager.record_started("test-config", "Test", 1080, None, 0, true);
    assert_eq!(manager.allocate_port(1080), 1081);
}

#[test]
fn start_is_decided_by_instances_and_ports() {
    let mut manager = SingboxManager::new();
    assert!(manager.begin_start("a", 1080).unwrap().is_none());
    let inst = manager.record_started("a", "Config A", 1080, Some(42), 1_700_000_000, true);
    assert_eq!(inst.status, SingboxStatus::Running);
    assert_eq!(inst.pid, Some(42));
    assert_eq!(inst.started_at, Some(1_700_000_000));
    // a running configuration is reused
    let again = manager.begin_start("a", 2000).unwrap().unwrap();
    assert_eq!(again.config_name, "Config A");
    assert_eq!(again.socks_port, 1080);
    // its port is refused to another configuration
    let err = manager.begin_start("b", 1080).unwrap_err();
    assert!(matches!(err, IsolateError::Process(_)));
    assert_eq!(err.to_string(), "Port 1080 is already in use by config 'a'");
    assert!(manager.begin_start("b", 1081).unwrap().is_none());
    assert!(manager.is_running("a"));
    assert_eq!(manager.get_socks_port("a"), Some(1080));
    assert_eq!(manager.restart_port("a"), 1080);
    assert_eq!(manager.restart_port("zzz"), 1080);
}

#[test]
fn stop_frees_instance_and_port() {
    let mut manager = SingboxManager::new();
    manager.record_started("a", "A", 1080, Some(1), 5, true);
    manager.record_started("b", "B", 1081, Some(2), 6, true);
    let stopped = manager.stop("a").unwrap();
    assert_eq!(stopped.status, SingboxStatus::Stopping);
    assert_eq!(stopped.config_id, "a");
    assert!(!manager.is_running("a"));
    assert!(manager.get_status("a").is_none());
    assert_eq!(manager.allocate_port(1080), 1080);
    assert!(manager.is_running("b"));
    let err = manager.stop("a").unwrap_err();
    assert_eq!(err.to_string(), "No running instance for config 'a'");
    assert_eq!(manager.instance_ids(), vec!["b".to_string()]);
    assert_eq!(manager.list_instances().len(), 1);
}

#[test]
fn tun_instances_hold_no_port() {
    let mut manager = SingboxManager::new();
    manager.record_started("p-tun", "P (TUN)", 0, None, 1, false);
    assert!(manager.is_running("p-tun"));
    assert_eq!(manager.allocate_port(0), 0);
    assert!(manager.begin_start("q", 0).unwrap().is_none());
}

#[test]
fn health_checks_update_the_instance() {
    let mut manager = SingboxManager::new();
    assert_eq!(manager.health_port("x").unwrap_err().to_string(), "No running instance for config 'x'");
    manager.record_started("x", "X", 1090, None, 1, true);
    assert_eq!(manager.health_port("x").unwrap(), 1090);
    manager.record_health("x", 10, false);
    manager.record_health("x", 11, false);
    manager.record_health("x", 12, false);
    let st = manager.get_status("x").unwrap();
    assert_eq!(st.status, SingboxStatus::HealthCheckFailed);
    assert_eq!(st.health_check_failures, 3);
    assert_eq!(st.last_health_check, Some(12));
    assert!(!manager.is_running("x"));
    manager.record_health("x", 13, true);
    assert!(manager.is_running("x"));
    // a failed instance is started again
    manager.record_health("x", 14, false);
    manager.record_health("x", 15, false);
    manager.record_health("x", 16, false);
    assert!(manager.begin_start("x", 1090).unwrap().is_none());
}

#[test]
fn tun_instances_are_named_after_the_proxy() {
    assert_eq!(tun_config_id("proxy1"), "proxy1-tun");
    assert_eq!(tun_config_name("My proxy"), "My proxy (TUN)");
    let mut manager = SingboxManager::new();
    assert!(manager.begin_tun_start("proxy1").is_none());
    let inst = manager.record_tun_started("proxy1", "My proxy", Some(9), 77);
    assert_eq!(inst.config_id, "proxy1-tun");
    assert_eq!(inst.config_name, "My proxy (TUN)");
    assert_eq!(inst.socks_port, 0);
    assert_eq!(inst.status, SingboxStatus::Running);
    assert_eq!(manager.begin_tun_start("proxy1").unwrap().pid, Some(9));
    assert!(manager.begin_tun_start("proxy2").is_none());
    assert_eq!(manager.allocate_port(0), 0);
}
