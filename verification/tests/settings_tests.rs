use isolate_core::models::{ModeCapabilities, Strategy, StrategyEngine, StrategyFamily, StrategyRequirements};
use isolate_core::probe::{
    format_probe_error, local_socks_url, probe_status_accepted, unexpected_status_message, ProbeConfig, ProxyConfig,
};
use isolate_core::records::HistoryPeriod;
use isolate_core::system_proxy::{proxy_enabled_flags, proxy_flag_set, proxy_info_from, windows_proxy_string};
use isolate_core::tcp_timestamps::{
    parse_timestamps_status, timestamps_change, timestamps_change_result, TcpTimestampsStatus,
};
use isolate_core::tester::{
    blocked_difference, check_testable, curl_command, engine_test_result, no_engine_test_result, read_curl_output,
    start_failure_result,
    status_running, DpiSimulatorConfig, DpiStats,
};
use isolate_core::error::IsolateError;
use isolate_core::tun::{TunConfig, TunInstance, TunStatus};

#[test]
fn test_status_display() {
    assert_eq!(TcpTimestampsStatus::Enabled.to_string(), "enabled");
    assert_eq!(TcpTimestampsStatus::Disabled.to_string(), "disabled");
    assert_eq!(TcpTimestampsStatus::Unknown.to_string(), "unknown");
}

#[test]
fn strategy_tester_test_default_config() {
    let config = DpiSimulatorConfig::default();
    assert_eq!(config.ssh_host, "VM-test@192.168.100.20");
    assert_eq!(config.api_url, "http://localhost:8888");
    assert_eq!(config.test_timeout_secs, 10);
    assert_eq!(config.test_domain, "youtube.com");
}

#[test]
fn tun_manager_test_default_config() {
    let config = TunConfig::default();
    assert_eq!(config.interface_name, "isolate-tun");
    assert_eq!(config.mtu, 9000);
    assert_eq!(config.address_v4, "172.19.0.1/24");
    assert!(config.auto_route);
    assert!(!config.strict_route);
}

#[test]
fn test_probe_config_default() {
    let config = ProbeConfig::default();
    assert_eq!(config.timeout, 10_000);
    assert_eq!(config.connect_timeout, 5_000);
}

#[test]
fn test_probe_config_fast() {
    let config = ProbeConfig::fast();
    assert_eq!(config.timeout, 5_000);
    assert_eq!(config.connect_timeout, 3_000);
}

#[test]
fn test_probe_config_slow() {
    let config = ProbeConfig::slow();
    assert_eq!(config.timeout, 30_000);
    assert_eq!(config.connect_timeout, 15_000);
}

#[test]
fn test_probe_config_custom() {
    let config = ProbeConfig::new(20_000, 10_000);
    assert_eq!(config.timeout, 20_000);
    assert_eq!(config.connect_timeout, 10_000);
}

#[test]
fn proxy_url_has_scheme_host_and_port() {
    let proxy = ProxyConfig::new("127.0.0.1", 1080);
    assert_eq!(proxy.url(), "socks5://127.0.0.1:1080");
}

#[test]
fn history_period_hours() {
    assert_eq!(HistoryPeriod::Hour1.hours(), 1);
    assert_eq!(HistoryPeriod::Hours24.hours(), 24);
    assert_eq!(HistoryPeriod::Days7.hours(), 168);
    assert_eq!(HistoryPeriod::Custom(5).hours(), 5);
}

#[test]
fn timestamps_status_is_read_from_netsh_output() {
    let out = "TCP Global Parameters\r\n----\r\nReceive-Side Scaling State : enabled\r\nRFC 1323 Timestamps : Disabled\r\n";
    assert_eq!(parse_timestamps_status(out), TcpTimestampsStatus::Disabled);
    assert_eq!(parse_timestamps_status("Timestamps : ENABLED"), TcpTimestampsStatus::Enabled);
    assert_eq!(parse_timestamps_status("nothing here\nat all"), TcpTimestampsStatus::Unknown);
    assert_eq!(parse_timestamps_status(""), TcpTimestampsStatus::Unknown);
}

#[test]
fn timestamps_change_plans_the_netsh_call() {
    assert!(timestamps_change(true, false, TcpTimestampsStatus::Disabled).is_err());
    assert_eq!(timestamps_change(true, true, TcpTimestampsStatus::Enabled).unwrap(), None);
    assert_eq!(
        timestamps_change(false, true, TcpTimestampsStatus::Unknown).unwrap(),
        Some(vec!["int".to_string(), "tcp".to_string(), "set".to_string(), "global".to_string(), "timestamps=disabled".to_string()])
    );
    assert!(timestamps_change_result(true, true, "", "").is_ok());
    assert_eq!(
        timestamps_change_result(true, false, "out", "err").unwrap_err().to_string(),
        "Failed to enable TCP timestamps: out err"
    );
}

#[test]
fn curl_command_depends_on_the_test_machine() {
    let config = DpiSimulatorConfig::default();
    assert_eq!(
        curl_command(&config, "youtube.com"),
        "curl.exe -s --connect-timeout 8 -o NUL -w \"%%{http_code}\" https://youtube.com"
    );
    let linux = DpiSimulatorConfig { ssh_host: "user@10.0.0.1".to_string(), ..DpiSimulatorConfig::default() };
    assert_eq!(
        curl_command(&linux, "a.b"),
        "curl -s --connect-timeout 8 -o /dev/null -w '%{http_code}' https://a.b"
    );
}

#[test]
fn curl_output_and_results() {
    let ok = read_curl_output(" 204\n", 15);
    assert!(ok.success);
    assert_eq!(ok.http_code, 204);
    assert_eq!(ok.latency_ms, 15);
    let bad = read_curl_output("000", 3);
    assert!(!bad.success);
    assert_eq!(bad.http_code, 0);
    assert_eq!(read_curl_output("garbage", 1).http_code, 0);
    assert!(!read_curl_output("403", 1).success);

    let stats = DpiStats { total_packets: 9, blocked_sni: 2, blocked_http: 0, blocked_quic: 0, passed: 7 };
    let r = engine_test_result("s", 4, &stats, Ok((false, 403, 20)));
    assert_eq!(r.error, Some("HTTP 403".to_string()));
    assert_eq!(r.latency_ms, Some(20));
    assert_eq!((r.blocked_before, r.blocked_after, r.passed_after), (4, 2, 7));
    let r = engine_test_result("s", 0, &stats, Err("timeout".to_string()));
    assert!(!r.success);
    assert_eq!(r.error, Some("timeout".to_string()));
    assert_eq!(r.latency_ms, None);
    let r = start_failure_result("s", 1, "boom");
    assert_eq!(r.error, Some("Failed to start strategy: boom".to_string()));
    assert!(status_running("{\"status\":\"running\"}"));
    assert!(!status_running("stopped"));
}

#[test]
fn check_testable_needs_global_mode() {
    let s = Strategy {
        id: "x".to_string(),
        name: "X".to_string(),
        description: String::new(),
        family: StrategyFamily::DnsBypass,
        engine: StrategyEngine::SingBox,
        mode_capabilities: ModeCapabilities { supports_socks: true, supports_global: false },
        socks_template: None,
        global_template: None,
        requirements: StrategyRequirements::default(),
        weight_hint: 0,
        services: vec![],
    };
    assert_eq!(
        check_testable(&s).unwrap_err().to_string(),
        "Strategy 'x' does not support GLOBAL mode required for testing"
    );
}

#[test]
fn tun_start_requires_admin() {
    let mut tun = TunInstance::stopped(TunConfig::default());
    let r = tun.begin_start(2080, false);
    assert!(matches!(r, Err(IsolateError::RequiresAdmin)));
    assert_eq!(tun.status, TunStatus::Stopped);
    assert_eq!(tun.socks_port, 1080);
}

#[test]
fn tun_start_stop_cycle() {
    let mut tun = TunInstance::stopped(TunConfig::default());
    assert!(tun.begin_start(2080, true).is_ok());
    assert_eq!(tun.status, TunStatus::Starting);
    assert_eq!(tun.socks_port, 2080);
    tun.launched(Some(4242), 1_700_000_000);
    assert_eq!(tun.status, TunStatus::Running);
    assert_eq!(tun.pid, Some(4242));
    assert_eq!(tun.started_at, Some(1_700_000_000));
    // starting again while running is refused and changes nothing
    let err = tun.begin_start(3000, true).unwrap_err();
    assert!(matches!(err, IsolateError::Process(_)));
    assert_eq!(err.to_string(), "TUN is already running");
    assert_eq!(tun.socks_port, 2080);
    assert_eq!(tun.status, TunStatus::Running);
    assert!(tun.begin_stop());
    assert_eq!(tun.status, TunStatus::Stopping);
    tun.finish_stop();
    assert_eq!(tun.status, TunStatus::Stopped);
    assert_eq!(tun.pid, None);
    assert_eq!(tun.started_at, None);
    assert!(!tun.begin_stop());
    assert_eq!(tun.status, TunStatus::Stopped);
}

#[test]
fn tun_launch_failure() {
    let mut tun = TunInstance::stopped(TunConfig::default());
    assert!(tun.begin_start(1080, true).is_ok());
    tun.launch_failed();
    assert_eq!(tun.status, TunStatus::Failed);
    assert!(tun.begin_stop());
    tun.finish_stop();
    assert_eq!(tun.status, TunStatus::Stopped);
}

#[test]
fn tester_result_without_engine() {
    let stats = DpiStats { total_packets: 5, blocked_sni: 3, blocked_http: 0, blocked_quic: 0, passed: 2 };
    let failed = read_curl_output("000", 70);
    let r = no_engine_test_result("s", 1, &stats, &failed);
    assert!(!r.success);
    assert_eq!(r.blocked_before, 1);
    assert_eq!(r.blocked_after, 3);
    assert_eq!(r.passed_after, 2);
    assert_eq!(r.latency_ms, Some(70));
    assert_eq!(r.error, Some("HTTP 0 (no engine - strategy not applied)".to_string()));
    let ok = read_curl_output(" 204\n", 15);
    let r = no_engine_test_result("s", 0, &stats, &ok);
    assert!(r.success);
    assert_eq!(r.error, None);
}

#[test]
fn probe_statuses_and_errors() {
    for ok in [200u16, 204, 301, 302, 401, 403] {
        assert!(probe_status_accepted(ok));
    }
    for bad in [0u16, 201, 303, 404, 500, 502] {
        assert!(!probe_status_accepted(bad));
    }
    assert_eq!(unexpected_status_message(503), "Unexpected status code: 503");
    assert_eq!(format_probe_error(true, true, true, "x"), "Connection timeout");
    assert_eq!(format_probe_error(false, true, true, "x"), "Connection refused or failed");
    assert_eq!(format_probe_error(false, false, true, "bad url"), "Request error: bad url");
    assert_eq!(format_probe_error(false, false, false, "eof"), "Error: eof");
    assert_eq!(local_socks_url(10800), "socks5://127.0.0.1:10800");
}

#[test]
fn tun_addresses_with_and_without_ipv6() {
    let mut config = TunConfig::default();
    assert_eq!(config.addresses(), vec!["172.19.0.1/24".to_string()]);
    config.address_v6 = Some("fdfe:dcba:9876::1/96".to_string());
    let addresses = config.addresses();
    assert_eq!(addresses.len(), 2);
    assert_eq!(addresses[1], "fdfe:dcba:9876::1/96");
    let mut tun = TunInstance::stopped(TunConfig::default());
    assert!(!tun.is_running());
    tun.set_config(config);
    assert_eq!(tun.config.address_v6, Some("fdfe:dcba:9876::1/96".to_string()));
}

#[test]
fn windows_proxy_strings_and_queries() {
    assert_eq!(windows_proxy_string("127.0.0.1", 1080, "socks"), "socks=127.0.0.1:1080");
    assert_eq!(windows_proxy_string("127.0.0.1", 1080, "socks5"), "socks=127.0.0.1:1080");
    assert_eq!(windows_proxy_string("localhost", 8080, "http"), "http://localhost:8080");
    assert_eq!(windows_proxy_string("h", 1, "https"), "h:1");
    assert_eq!(proxy_enabled_flags(), 3);
    assert!(proxy_flag_set(3));
    assert!(proxy_flag_set(2));
    assert!(!proxy_flag_set(1));
    let info = proxy_info_from(3, "socks=127.0.0.1:1080".to_string()).unwrap();
    assert!(info.enabled);
    assert_eq!(info.server, "socks=127.0.0.1:1080");
    assert!(proxy_info_from(1, "socks=127.0.0.1:1080".to_string()).is_none());
    assert!(proxy_info_from(3, String::new()).is_none());
}

#[test]
fn tester_blocked_counter_difference() {
    assert_eq!(blocked_difference(12, 5), 7);
    assert_eq!(blocked_difference(5, 5), 0);
}
