use std::collections::HashMap;

use isolate_core::engine::{EngineMode, SOCKS_PORT_START};
use isolate_core::engine_state::StrategyEngine;
use isolate_core::error::IsolateError;
use isolate_core::models::{
    LaunchTemplate, ModeCapabilities, Strategy, StrategyEngine as EngineType, StrategyFamily,
    StrategyRequirements, WinDivertMode,
};

fn create_test_strategy(id: &str, supports_socks: bool, supports_global: bool, engine: EngineType) -> Strategy {
    Strategy {
        id: id.to_string(),
        name: format!("Test Strategy {}", id),
        description: "Test strategy for unit tests".to_string(),
        family: StrategyFamily::DnsBypass,
        engine,
        mode_capabilities: ModeCapabilities { supports_socks, supports_global },
        socks_template: if supports_socks {
            Some(LaunchTemplate {
                binary: "test-binary.exe".to_string(),
                args: vec!["--port".to_string(), "{{port}}".to_string()],
                env: HashMap::new(),
                log_file: None,
                requires_admin: false,
            })
        } else {
            None
        },
        global_template: if supports_global {
            Some(LaunchTemplate {
                binary: "test-binary.exe".to_string(),
                args: vec!["--global".to_string()],
                env: HashMap::new(),
                log_file: None,
                requires_admin: true,
            })
        } else {
            None
        },
        requirements: StrategyRequirements::default(),
        weight_hint: 0,
        services: vec!["youtube".to_string()],
    }
}

fn create_singbox_strategy(id: &str) -> Strategy {
    create_test_strategy(id, true, false, EngineType::SingBox)
}

fn mock_engine() -> StrategyEngine {
    let mut engine = StrategyEngine::new();
    engine.set_mode(EngineMode::Mock);
    engine
}

#[test]
fn test_engine_new_default_mode() {
    let engine = StrategyEngine::new();
    assert_eq!(engine.get_mode(), EngineMode::Real);
}

#[test]
fn test_engine_set_mode() {
    let mut engine = StrategyEngine::new();
    engine.set_mode(EngineMode::Mock);
    assert_eq!(engine.get_mode(), EngineMode::Mock);
    engine.set_mode(EngineMode::DpiTest);
    assert_eq!(engine.get_mode(), EngineMode::DpiTest);
}

#[test]
fn test_engine_windivert_mode_default() {
    let engine = StrategyEngine::new();
    assert_eq!(engine.get_windivert_mode(), WinDivertMode::Normal);
}

#[test]
fn test_engine_set_windivert_mode() {
    let mut engine = StrategyEngine::new();
    engine.set_windivert_mode(WinDivertMode::AutoTTL);
    assert_eq!(engine.get_windivert_mode(), WinDivertMode::AutoTTL);
    engine.set_windivert_mode(WinDivertMode::AutoHostlist);
    assert_eq!(engine.get_windivert_mode(), WinDivertMode::AutoHostlist);
}

#[test]
fn test_engine_is_running_false_initially() {
    let engine = StrategyEngine::new();
    assert!(!engine.is_running("any-strategy"));
}

#[test]
fn test_engine_get_global_strategy_none_initially() {
    let engine = StrategyEngine::new();
    assert!(engine.get_global_strategy().is_none());
}

#[test]
fn test_engine_get_socks_port_none_initially() {
    let engine = StrategyEngine::new();
    assert!(engine.get_socks_port("any-strategy").is_none());
}

#[test]
fn engine_default_matches_new() {
    let engine = StrategyEngine::default();
    assert_eq!(engine.get_mode(), EngineMode::Real);
    assert!(engine.get_global_strategy().is_none());
}

#[test]
fn test_start_socks_unsupported_mode() {
    let mut engine = mock_engine();
    let strategy = create_test_strategy("no-socks", false, true, EngineType::SingBox);
    let result = engine.start_socks(&strategy, false);
    assert!(result.is_err());
    assert!(matches!(result.unwrap_err(), IsolateError::Config(_)));
}

#[test]
fn test_start_global_unsupported_mode() {
    let mut engine = mock_engine();
    let strategy = create_test_strategy("no-global", true, false, EngineType::SingBox);
    let result = engine.start_global(&strategy, false, false);
    assert!(result.is_err());
    assert!(matches!(result.unwrap_err(), IsolateError::Config(_)));
}

#[test]
fn test_start_socks_no_template() {
    let mut engine = mock_engine();
    let mut strategy = create_test_strategy("broken", true, false, EngineType::SingBox);
    strategy.socks_template = None;
    assert!(engine.start_socks(&strategy, false).is_err());
}

#[test]
fn test_start_global_no_template() {
    let mut engine = mock_engine();
    let mut strategy = create_test_strategy("broken", false, true, EngineType::SingBox);
    strategy.global_template = None;
    assert!(engine.start_global(&strategy, false, false).is_err());
}

#[test]
fn test_mock_start_socks_allocates_port() {
    let mut engine = mock_engine();
    let strategy = create_singbox_strategy("mock-socks-1");
    let port = engine.start_socks(&strategy, false).unwrap();
    assert_eq!(port, SOCKS_PORT_START);
    assert!(engine.is_running(&strategy.id));
}

#[test]
fn test_mock_start_global_sets_global_strategy() {
    let mut engine = mock_engine();
    let strategy = create_test_strategy("mock-global-1", false, true, EngineType::SingBox);
    engine.start_global(&strategy, false, false).unwrap();
    assert_eq!(engine.get_global_strategy(), Some(strategy.id.clone()));
    assert!(engine.is_running(&strategy.id));
}

#[test]
fn test_mock_stop_socks_releases_port() {
    let mut engine = mock_engine();
    let strategy = create_singbox_strategy("mock-stop-1");
    let _port = engine.start_socks(&strategy, false).unwrap();
    assert!(engine.get_socks_port(&strategy.id).is_some());
    engine.stop_socks(&strategy.id);
    assert!(!engine.is_running(&strategy.id));
    assert!(engine.get_socks_port(&strategy.id).is_none());
}

#[test]
fn test_mock_stop_global_clears_global_strategy() {
    let mut engine = mock_engine();
    let strategy = create_test_strategy("mock-global-stop", false, true, EngineType::SingBox);
    engine.start_global(&strategy, false, false).unwrap();
    assert!(engine.get_global_strategy().is_some());
    assert_eq!(engine.stop_global(), Some(strategy.id.clone()));
    assert!(engine.get_global_strategy().is_none());
}

#[test]
fn test_mock_shutdown_all_clears_everything() {
    let mut engine = mock_engine();
    let socks_strategy = create_singbox_strategy("shutdown-socks");
    let global_strategy = create_test_strategy("shutdown-global", false, true, EngineType::SingBox);
    engine.start_socks(&socks_strategy, false).unwrap();
    engine.start_global(&global_strategy, false, false).unwrap();
    assert!(engine.is_running(&socks_strategy.id));
    assert!(engine.is_running(&global_strategy.id));
    assert!(engine.shutdown_all().is_empty());
    assert!(!engine.is_running(&socks_strategy.id));
    assert!(!engine.is_running(&global_strategy.id));
    assert!(engine.get_global_strategy().is_none());
}

#[test]
fn test_mock_start_already_running_fails() {
    let mut engine = mock_engine();
    let strategy = create_singbox_strategy("already-running");
    engine.start_socks(&strategy, false).unwrap();
    let result = engine.start_socks(&strategy, false);
    assert!(result.is_err());
    assert_eq!(
        result.unwrap_err().to_string(),
        "Strategy 'already-running' is already running (mock)"
    );
    assert!(engine.is_running(&strategy.id));
}

#[test]
fn test_mock_multiple_socks_strategies() {
    let mut engine = mock_engine();
    let strategy1 = create_singbox_strategy("multi-socks-1");
    let strategy2 = create_singbox_strategy("multi-socks-2");
    let strategy3 = create_singbox_strategy("multi-socks-3");
    let port1 = engine.start_socks(&strategy1, false).unwrap();
    let port2 = engine.start_socks(&strategy2, false).unwrap();
    let port3 = engine.start_socks(&strategy3, false).unwrap();
    assert_ne!(port1, port2);
    assert_ne!(port2, port3);
    assert_ne!(port1, port3);
    assert!(engine.is_running(&strategy1.id));
    assert!(engine.is_running(&strategy2.id));
    assert!(engine.is_running(&strategy3.id));
}

#[test]
fn test_mock_stop_one_of_multiple_socks() {
    let mut engine = mock_engine();
    let strategy1 = create_singbox_strategy("stop-one-1");
    let strategy2 = create_singbox_strategy("stop-one-2");
    engine.start_socks(&strategy1, false).unwrap();
    engine.start_socks(&strategy2, false).unwrap();
    assert!(engine.stop_socks(&strategy1.id));
    assert!(!engine.is_running(&strategy1.id));
    assert!(engine.is_running(&strategy2.id));
}

#[test]
fn test_mock_global_replaces_previous() {
    let mut engine = mock_engine();
    let strategy1 = create_test_strategy("global-replace-1", false, true, EngineType::SingBox);
    let strategy2 = create_test_strategy("global-replace-2", false, true, EngineType::SingBox);
    assert_eq!(engine.start_global(&strategy1, false, false).unwrap(), None);
    assert_eq!(engine.get_global_strategy(), Some(strategy1.id.clone()));
    assert_eq!(engine.start_global(&strategy2, false, false).unwrap(), Some(strategy1.id.clone()));
    assert_eq!(engine.get_global_strategy(), Some(strategy2.id.clone()));
    assert!(!engine.is_running(&strategy1.id));
    assert!(engine.is_running(&strategy2.id));
}

#[test]
fn test_mode_switch_clears_mock_state() {
    let mut engine = mock_engine();
    let strategy = create_singbox_strategy("mode-switch-1");
    engine.start_socks(&strategy, false).unwrap();
    assert!(engine.is_running(&strategy.id));
    engine.set_mode(EngineMode::Real);
    assert!(!engine.is_running(&strategy.id));
    engine.set_mode(EngineMode::Mock);
    assert!(!engine.is_running(&strategy.id));
}

#[test]
fn test_mode_switch_back_to_mock() {
    let mut engine = StrategyEngine::new();
    engine.set_mode(EngineMode::Mock);
    engine.set_mode(EngineMode::Real);
    engine.set_mode(EngineMode::Mock);
    assert_eq!(engine.get_mode(), EngineMode::Mock);
    let strategy = create_singbox_strategy("mode-switch-back");
    assert!(engine.start_socks(&strategy, false).is_ok());
}

#[test]
fn test_dpi_test_mode() {
    let mut engine = StrategyEngine::new();
    engine.set_mode(EngineMode::DpiTest);
    assert_eq!(engine.get_mode(), EngineMode::DpiTest);
    assert_ne!(engine.get_mode(), EngineMode::Mock);
}

#[test]
fn test_windivert_mode_all_variants() {
    let mut engine = StrategyEngine::new();
    for mode in [WinDivertMode::Normal, WinDivertMode::AutoTTL, WinDivertMode::AutoHostlist] {
        engine.set_windivert_mode(mode);
        assert_eq!(engine.get_windivert_mode(), mode);
    }
}

#[test]
fn test_stop_nonexistent_socks() {
    let mut engine = mock_engine();
    assert!(!engine.stop_socks("nonexistent"));
}

#[test]
fn test_stop_global_when_none_running() {
    let mut engine = mock_engine();
    assert_eq!(engine.stop_global(), None);
}

#[test]
fn test_shutdown_all_when_empty() {
    let mut engine = mock_engine();
    assert!(engine.shutdown_all().is_empty());
}

#[test]
fn test_is_running_nonexistent_strategy() {
    let engine = mock_engine();
    assert!(!engine.is_running("does-not-exist"));
}

#[test]
fn test_get_socks_port_after_stop() {
    let mut engine = mock_engine();
    let strategy = create_singbox_strategy("port-after-stop");
    let port = engine.start_socks(&strategy, false).unwrap();
    assert!(engine.get_socks_port(&strategy.id).is_some());
    engine.stop_socks(&strategy.id);
    assert!(engine.get_socks_port(&strategy.id).is_none());
    let strategy2 = create_singbox_strategy("port-reuse");
    let port2 = engine.start_socks(&strategy2, false).unwrap();
    assert_eq!(port, port2);
}

#[test]
fn blocked_strategy_refused_before_anything_else() {
    let mut engine = mock_engine();
    let strategy = create_singbox_strategy("blocked-one");
    let err = engine.start_socks(&strategy, true).unwrap_err();
    assert!(matches!(err, IsolateError::Strategy(_)));
    assert_eq!(err.to_string(), "Strategy 'blocked-one' is blocked due to consecutive failures");
    assert!(engine.get_socks_port(&strategy.id).is_none());
    assert!(!engine.is_running(&strategy.id));
}

#[test]
fn real_mode_socks_lifecycle() {
    let mut engine = StrategyEngine::new();
    let strategy = create_singbox_strategy("real-socks");
    let port = engine.start_socks(&strategy, false).unwrap();
    assert_eq!(port, SOCKS_PORT_START);
    // the launch is the application's; until it is recorded nothing runs
    assert!(!engine.is_running(&strategy.id));
    engine.record_process(&strategy.id).unwrap();
    assert!(engine.is_running(&strategy.id));
    let err = engine.record_process(&strategy.id).unwrap_err();
    assert_eq!(err.to_string(), "Strategy 'real-socks' is already running");
    assert!(engine.stop_socks(&strategy.id));
    assert!(!engine.is_running(&strategy.id));
    assert!(engine.get_socks_port(&strategy.id).is_none());
}

#[test]
fn real_mode_failed_launch_releases_port() {
    let mut engine = StrategyEngine::new();
    let strategy = create_singbox_strategy("real-fail");
    let port = engine.start_socks(&strategy, false).unwrap();
    engine.release_port(port);
    assert!(engine.get_socks_port(&strategy.id).is_none());
}

#[test]
fn real_mode_global_needs_admin() {
    let mut engine = StrategyEngine::new();
    let strategy = create_test_strategy("real-global", false, true, EngineType::Zapret);
    let err = engine.start_global(&strategy, false, false).unwrap_err();
    assert!(matches!(err, IsolateError::RequiresAdmin));
    assert_eq!(engine.start_global(&strategy, false, true).unwrap(), None);
    engine.global_launched(&strategy.id).unwrap();
    assert_eq!(engine.get_global_strategy(), Some("real-global".to_string()));
    assert!(engine.is_running(&strategy.id));
    let other = create_test_strategy("real-global-2", false, true, EngineType::Zapret);
    assert_eq!(engine.start_global(&other, false, true).unwrap(), Some("real-global".to_string()));
    assert!(!engine.is_running(&strategy.id));
    assert!(engine.get_global_strategy().is_none());
}

#[test]
fn real_mode_shutdown_lists_processes() {
    let mut engine = StrategyEngine::new();
    let a = create_singbox_strategy("proc-a");
    let b = create_singbox_strategy("proc-b");
    engine.start_socks(&a, false).unwrap();
    engine.record_process(&a.id).unwrap();
    engine.start_socks(&b, false).unwrap();
    engine.record_process(&b.id).unwrap();
    let stopped = engine.shutdown_all();
    assert_eq!(stopped, vec!["proc-a".to_string(), "proc-b".to_string()]);
    assert!(!engine.is_running("proc-a"));
    assert!(engine.get_socks_port("proc-b").is_none());
}
