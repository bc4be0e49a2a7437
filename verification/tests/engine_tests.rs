use std::collections::HashMap;

use isolate_core::engine::{
    check_admin, launch_template, prepare_args, substitute_port, EngineMode, LaunchMode, PortManager,
    SOCKS_PORT_START,
};
use isolate_core::models::{
    LaunchTemplate, ModeCapabilities, Strategy, StrategyEngine as EngineType, StrategyFamily,
    StrategyRequirements,
};

fn create_test_strategy(id: &str, supports_socks: bool, supports_global: bool, engine: EngineType) -> Strategy {
    Strategy {
        id: id.to_string(),
        name: format!("Test Strategy {}", id),
        description: "Test strategy for unit tests".to_string(),
        family: StrategyFamily::DnsBypass,
        engine,
        mode_capabilities: ModeCapabilities { supports_socks, supports_global },
        socks_template: if supports_socks {
            Some(LaunchTemplate {
                binary: "test-binary.exe".to_string(),
                args: vec!["--port".to_string(), "{{port}}".to_string()],
                env: HashMap::new(),
                log_file: None,
                requires_admin: false,
            })
        } else {
            None
        },
        global_template: if supports_global {
            Some(LaunchTemplate {
                binary: "test-binary.exe".to_string(),
                args: vec!["--global".to_string()],
                env: HashMap::new(),
                log_file: None,
                requires_admin: true,
            })
        } else {
            None
        },
        requirements: StrategyRequirements::default(),
        weight_hint: 0,
        services: vec!["youtube".to_string()],
    }
}

fn create_zapret_strategy(id: &str) -> Strategy {
    create_test_strategy(id, true, true, EngineType::Zapret)
}

fn create_singbox_strategy(id: &str) -> Strategy {
    create_test_strategy(id, true, false, EngineType::SingBox)
}

#[test]
fn test_port_manager_allocate_first_port() {
    let mut pm = PortManager::default();
    let port = pm.allocate("strategy-1").unwrap();
    assert_eq!(port, SOCKS_PORT_START);
    assert!(pm.is_allocated(port));
}

#[test]
fn test_port_manager_allocate_sequential_ports() {
    let mut pm = PortManager::default();

    let port1 = pm.allocate("strategy-1").unwrap();
    let port2 = pm.allocate("strategy-2").unwrap();
    let port3 = pm.allocate("strategy-3").unwrap();

    assert_eq!(port1, SOCKS_PORT_START);
    assert_eq!(port2, SOCKS_PORT_START + 1);
    assert_eq!(port3, SOCKS_PORT_START + 2);
}

#[test]
fn test_port_manager_reuse_existing_allocation() {
    let mut pm = PortManager::default();

    let port1 = pm.allocate("strategy-1").unwrap();
    let port2 = pm.allocate("strategy-1").unwrap();

    assert_eq!(port1, port2);
    assert_eq!(pm.allocated_count(), 1);
}

#[test]
fn test_port_manager_release_port() {
    let mut pm = PortManager::default();

    let port = pm.allocate("strategy-1").unwrap();
    assert!(pm.is_allocated(port));

    pm.release(port);
    assert!(!pm.is_allocated(port));
}

#[test]
fn test_port_manager_release_by_strategy() {
    let mut pm = PortManager::default();

    pm.allocate("strategy-1").unwrap();
    pm.allocate("strategy-2").unwrap();

    assert_eq!(pm.allocated_count(), 2);

    pm.release_by_strategy("strategy-1");

    assert_eq!(pm.allocated_count(), 1);
    assert!(pm.get_port("strategy-1").is_none());
    assert!(pm.get_port("strategy-2").is_some());
}

#[test]
fn test_port_manager_get_port() {
    let mut pm = PortManager::default();

    let port = pm.allocate("strategy-1").unwrap();

    assert_eq!(pm.get_port("strategy-1"), Some(port));
    assert_eq!(pm.get_port("nonexistent"), None);
}

#[test]
fn test_port_manager_allocate_specific_success() {
    let mut pm = PortManager::default();

    let specific_port = SOCKS_PORT_START + 50;
    pm.allocate_specific(specific_port, "strategy-1").unwrap();

    assert!(pm.is_allocated(specific_port));
    assert_eq!(pm.get_port("strategy-1"), Some(specific_port));
}

#[test]
fn test_port_manager_allocate_specific_conflict() {
    let mut pm = PortManager::default();

    let port = pm.allocate("strategy-1").unwrap();
    let result = pm.allocate_specific(port, "strategy-2");

    assert!(result.is_err());
}

#[test]
fn test_engine_mode_default() {
    let mode = EngineMode::default();
    assert_eq!(mode, EngineMode::Real);
}

#[test]
fn test_engine_mode_display() {
    assert_eq!(EngineMode::Real.to_string(), "Real");
    assert_eq!(EngineMode::Mock.to_string(), "Mock");
    assert_eq!(EngineMode::DpiTest.to_string(), "DpiTest");
}

#[test]
fn test_launch_mode_equality() {
    assert_eq!(LaunchMode::Socks, LaunchMode::Socks);
    assert_eq!(LaunchMode::Global, LaunchMode::Global);
    assert_ne!(LaunchMode::Socks, LaunchMode::Global);
}

#[test]
fn test_substitute_port_with_port() {
    let result = substitute_port("--port={{port}}", Some(12345));
    assert_eq!(result, "--port=12345");
}

#[test]
fn test_substitute_port_without_port() {
    let result = substitute_port("--port={{port}}", None);
    assert_eq!(result, "--port={{port}}");
}

#[test]
fn test_substitute_port_no_placeholder() {
    let result = substitute_port("--global", Some(12345));
    assert_eq!(result, "--global");
}

#[test]
fn test_prepare_args_with_port() {
    let args = vec!["--listen".to_string(), "127.0.0.1:{{port}}".to_string(), "--verbose".to_string()];

    let result = prepare_args(&args, Some(8080));

    assert_eq!(result, vec!["--listen", "127.0.0.1:8080", "--verbose"]);
}

#[test]
fn test_port_manager_release_nonexistent_port() {
    let mut pm = PortManager::default();

    pm.release(SOCKS_PORT_START + 999);
    assert_eq!(pm.allocated_count(), 0);
}

#[test]
fn test_port_manager_release_by_nonexistent_strategy() {
    let mut pm = PortManager::default();

    pm.allocate("strategy-1").unwrap();

    pm.release_by_strategy("nonexistent");
    assert_eq!(pm.allocated_count(), 1);
}

#[test]
fn test_port_manager_multiple_allocations_same_strategy() {
    let mut pm = PortManager::default();

    let port1 = pm.allocate("strategy-1").unwrap();
    let port2 = pm.allocate("strategy-1").unwrap();
    let port3 = pm.allocate("strategy-1").unwrap();

    assert_eq!(port1, port2);
    assert_eq!(port2, port3);
    assert_eq!(pm.allocated_count(), 1);
}

#[test]
fn test_port_manager_reallocation_after_release() {
    let mut pm = PortManager::default();

    let port1 = pm.allocate("strategy-1").unwrap();
    pm.release(port1);

    let port2 = pm.allocate("strategy-2").unwrap();
    assert_eq!(port1, port2);
}

#[test]
fn test_port_manager_is_allocated_false_for_unallocated() {
    let pm = PortManager::default();

    assert!(!pm.is_allocated(SOCKS_PORT_START));
    assert!(!pm.is_allocated(SOCKS_PORT_START + 50));
}

#[test]
fn test_create_test_strategy_socks_only() {
    let strategy = create_test_strategy("test-1", true, false, EngineType::SingBox);

    assert_eq!(strategy.id, "test-1");
    assert!(strategy.mode_capabilities.supports_socks);
    assert!(!strategy.mode_capabilities.supports_global);
    assert!(strategy.socks_template.is_some());
    assert!(strategy.global_template.is_none());
}

#[test]
fn test_create_test_strategy_global_only() {
    let strategy = create_test_strategy("test-2", false, true, EngineType::Zapret);

    assert_eq!(strategy.id, "test-2");
    assert!(!strategy.mode_capabilities.supports_socks);
    assert!(strategy.mode_capabilities.supports_global);
    assert!(strategy.socks_template.is_none());
    assert!(strategy.global_template.is_some());
}

#[test]
fn test_create_test_strategy_both_modes() {
    let strategy = create_test_strategy("test-3", true, true, EngineType::Zapret);

    assert!(strategy.mode_capabilities.supports_socks);
    assert!(strategy.mode_capabilities.supports_global);
    assert!(strategy.socks_template.is_some());
    assert!(strategy.global_template.is_some());
}

#[test]
fn test_create_zapret_strategy_has_both_modes() {
    let strategy = create_zapret_strategy("zapret-1");

    assert_eq!(strategy.engine, EngineType::Zapret);
    assert!(strategy.mode_capabilities.supports_socks);
    assert!(strategy.mode_capabilities.supports_global);
}

#[test]
fn test_create_singbox_strategy_socks_only() {
    let strategy = create_singbox_strategy("singbox-1");

    assert_eq!(strategy.engine, EngineType::SingBox);
    assert!(strategy.mode_capabilities.supports_socks);
    assert!(!strategy.mode_capabilities.supports_global);
}

#[test]
fn test_strategy_template_port_placeholder() {
    let strategy = create_test_strategy("test-port", true, false, EngineType::SingBox);

    let template = strategy.socks_template.unwrap();
    assert!(template.args.contains(&"{{port}}".to_string()));
}

#[test]
fn test_strategy_global_template_requires_admin() {
    let strategy = create_test_strategy("test-admin", false, true, EngineType::Zapret);

    let template = strategy.global_template.unwrap();
    assert!(template.requires_admin);
}

#[test]
fn test_strategy_has_services() {
    let strategy = create_test_strategy("services-test", true, true, EngineType::Zapret);

    assert!(!strategy.services.is_empty());
    assert!(strategy.services.contains(&"youtube".to_string()));
}

#[test]
fn test_strategy_family() {
    let strategy = create_test_strategy("family-test", true, true, EngineType::Zapret);

    assert_eq!(strategy.family, StrategyFamily::DnsBypass);
}

#[test]
fn allocation_fills_gaps_and_reports_exhaustion() {
    let mut pm = PortManager::default();
    for i in 0..100u16 {
        assert_eq!(pm.allocate(&format!("s{}", i)).unwrap(), SOCKS_PORT_START + i);
    }
    let err = pm.allocate("one-more").unwrap_err();
    assert_eq!(err.to_string(), "No free SOCKS ports available");
    assert_eq!(pm.allocated_count(), 100);
    pm.release(SOCKS_PORT_START + 42);
    assert_eq!(pm.allocate("one-more").unwrap(), SOCKS_PORT_START + 42);
}

#[test]
fn allocate_specific_conflict_names_the_owner() {
    let mut pm = PortManager::default();
    pm.allocate_specific(9000, "owner").unwrap();
    let err = pm.allocate_specific(9000, "other").unwrap_err();
    assert_eq!(err.to_string(), "Port 9000 already allocated to strategy 'owner'");
    pm.allocate_specific(9001, "owner").unwrap();
    assert_eq!(pm.get_port("owner"), Some(9000));
    pm.release_by_strategy("owner");
    assert_eq!(pm.allocated_count(), 0);
}

#[test]
fn substitute_port_replaces_every_placeholder() {
    assert_eq!(substitute_port("{{port}}:{{port}}", Some(7)), "7:7");
    assert_eq!(substitute_port("{{port}", Some(7)), "{{port}");
    assert_eq!(substitute_port("{{{port}}}", Some(80)), "{80}");
}

#[test]
fn launch_template_checks_in_order() {
    let socks_only = create_singbox_strategy("sb");
    assert_eq!(
        launch_template(&socks_only, LaunchMode::Global, false).err().unwrap().to_string(),
        "Strategy 'sb' does not support GLOBAL mode"
    );
    assert_eq!(
        launch_template(&socks_only, LaunchMode::Socks, true).err().unwrap().to_string(),
        "Strategy 'sb' is blocked due to consecutive failures"
    );
    assert_eq!(launch_template(&socks_only, LaunchMode::Socks, false).unwrap().binary, "test-binary.exe");
    let mut broken = create_zapret_strategy("z");
    broken.global_template = None;
    assert_eq!(
        launch_template(&broken, LaunchMode::Global, false).err().unwrap().to_string(),
        "Strategy 'z' has no GLOBAL template"
    );
    let zapret = create_zapret_strategy("z2");
    let global = launch_template(&zapret, LaunchMode::Global, false).unwrap();
    assert!(check_admin(global, false).is_err());
    assert!(check_admin(global, true).is_ok());
}
