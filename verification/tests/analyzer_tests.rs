use isolate_core::analyzer::{ServicePorts, StrategyAnalyzer};

#[test]
fn test_parse_ports_single() {
    let ports = StrategyAnalyzer::parse_ports("443");
    assert_eq!(ports, vec![443]);
}

#[test]
fn test_parse_ports_multiple() {
    let ports = StrategyAnalyzer::parse_ports("80,443,8080");
    assert_eq!(ports, vec![80, 443, 8080]);
}

#[test]
fn test_parse_ports_range() {
    let ports = StrategyAnalyzer::parse_ports("80-83");
    assert_eq!(ports, vec![80, 81, 82, 83]);
}

#[test]
fn test_parse_ports_mixed() {
    let ports = StrategyAnalyzer::parse_ports("80,443,8080-8082");
    assert_eq!(ports, vec![80, 443, 8080, 8081, 8082]);
}

#[test]
fn test_parse_ports_with_spaces() {
    let ports = StrategyAnalyzer::parse_ports(" 80 , 443 ");
    assert_eq!(ports, vec![80, 443]);
}

#[test]
fn test_parse_ports_empty() {
    let ports = StrategyAnalyzer::parse_ports("");
    assert!(ports.is_empty());
}

#[test]
fn test_parse_ports_invalid() {
    let ports = StrategyAnalyzer::parse_ports("abc,xyz");
    assert!(ports.is_empty());
}

#[test]
fn test_parse_ports_duplicates_removed() {
    let ports = StrategyAnalyzer::parse_ports("80,443,80,443");
    assert_eq!(ports, vec![80, 443]);
}

#[test]
fn test_analyze_basic_strategy() {
    let analyzer = StrategyAnalyzer::new();
    let args = "--wf-tcp=80,443 --dpi-desync=fake,disorder2";
    let analysis = analyzer.analyze("test_strategy", args);

    assert!(analysis.is_valid);
    assert_eq!(analysis.features.tcp_ports, vec![80, 443]);
    assert!(analysis.features.desync_methods.contains(&"fake".to_string()));
    assert!(analysis.features.desync_methods.contains(&"disorder2".to_string()));
}

#[test]
fn test_analyze_detects_fake() {
    let analyzer = StrategyAnalyzer::new();
    let args = "--wf-tcp=443 --dpi-desync-fake-tls=0x00000000";
    let analysis = analyzer.analyze("test", args);

    assert!(analysis.features.uses_fake);
}

#[test]
fn test_analyze_detects_split() {
    let analyzer = StrategyAnalyzer::new();
    let args = "--wf-tcp=443 --dpi-desync-split-pos=2";
    let analysis = analyzer.analyze("test", args);

    assert!(analysis.features.uses_split);
}

#[test]
fn test_analyze_detects_disorder() {
    let analyzer = StrategyAnalyzer::new();
    let args = "--wf-tcp=443 --dpi-desync=disorder2";
    let analysis = analyzer.analyze("test", args);

    assert!(analysis.features.uses_disorder);
}

#[test]
fn test_analyze_detects_hostlist() {
    let analyzer = StrategyAnalyzer::new();
    let args = "--wf-tcp=443 --hostlist=youtube.txt";
    let analysis = analyzer.analyze("test", args);

    assert!(analysis.features.uses_hostlist);
}

#[test]
fn test_analyze_empty_args_invalid() {
    let analyzer = StrategyAnalyzer::new();
    let analysis = analyzer.analyze("test", "");

    assert!(!analysis.is_valid);
    assert!(!analysis.errors.is_empty());
}

#[test]
fn test_analyze_ttl_parsing() {
    let analyzer = StrategyAnalyzer::new();
    let args = "--wf-tcp=443 --dpi-desync-ttl=5";
    let analysis = analyzer.analyze("test", args);

    assert_eq!(analysis.features.ttl, Some(5));
}

#[test]
fn test_analyze_invalid_ttl_zero() {
    let analyzer = StrategyAnalyzer::new();
    let args = "--wf-tcp=443 --dpi-desync-ttl=0";
    let analysis = analyzer.analyze("test", args);

    assert!(!analysis.is_valid);
    assert!(analysis.errors.iter().any(|e| e.contains("TTL")));
}

#[test]
fn test_analyze_udp_ports() {
    let analyzer = StrategyAnalyzer::new();
    let args = "--wf-udp=443,80";
    let analysis = analyzer.analyze("test", args);

    assert_eq!(analysis.features.udp_ports, vec![443, 80]);
}

#[test]
fn test_suitable_for_service_matching_ports() {
    let analyzer = StrategyAnalyzer::new();
    let args = "--wf-tcp=80,443";
    let analysis = analyzer.analyze("test", args);
    let service = ServicePorts::web();

    assert!(analyzer.is_suitable_for_service(&analysis, &service));
}

#[test]
fn test_suitable_for_service_missing_port() {
    let analyzer = StrategyAnalyzer::new();
    let args = "--wf-tcp=443";
    let analysis = analyzer.analyze("test", args);
    let service = ServicePorts::web();

    assert!(!analyzer.is_suitable_for_service(&analysis, &service));
}

#[test]
fn test_suitable_for_service_no_filters_global() {
    let analyzer = StrategyAnalyzer::new();
    let args = "--dpi-desync=fake";
    let analysis = analyzer.analyze("test", args);
    let service = ServicePorts::https();

    assert!(analyzer.is_suitable_for_service(&analysis, &service));
}

#[test]
fn test_suitable_for_service_udp_required() {
    let analyzer = StrategyAnalyzer::new();
    let args = "--wf-tcp=443";
    let analysis = analyzer.analyze("test", args);
    let service = ServicePorts::quic();

    assert!(!analyzer.is_suitable_for_service(&analysis, &service));
}

#[test]
fn test_warning_no_port_filters() {
    let analyzer = StrategyAnalyzer::new();
    let args = "--dpi-desync=fake";
    let analysis = analyzer.analyze("test", args);

    assert!(analysis.warnings.iter().any(|w| w.contains("port")));
}

#[test]
fn test_warning_no_desync_method() {
    let analyzer = StrategyAnalyzer::new();
    let args = "--wf-tcp=443";
    let analysis = analyzer.analyze("test", args);

    assert!(analysis.warnings.iter().any(|w| w.contains("desync")));
}

#[test]
fn test_warning_high_ttl() {
    let analyzer = StrategyAnalyzer::new();
    let args = "--wf-tcp=443 --dpi-desync-ttl=100";
    let analysis = analyzer.analyze("test", args);

    assert!(analysis.warnings.iter().any(|w| w.contains("TTL")));
}

#[test]
fn test_warning_disorder_and_split() {
    let analyzer = StrategyAnalyzer::new();
    let args = "--wf-tcp=443 --dpi-desync=disorder2 --dpi-desync-split-pos=2";
    let analysis = analyzer.analyze("test", args);

    assert!(analysis.warnings.iter().any(|w| w.contains("disorder") && w.contains("split")));
}

// ---- further cases ----

#[test]
fn parse_ports_plus_sign_and_reversed_range() {
    assert_eq!(StrategyAnalyzer::parse_ports("+80,90-85,70000,1-2-3"), vec![80]);
}

#[test]
fn parse_ports_full_range_end() {
    let ports = StrategyAnalyzer::parse_ports("65534-65535, 65535");
    assert_eq!(ports, vec![65534, 65535]);
}

#[test]
fn analyze_high_ttl_message_exact() {
    let analysis = StrategyAnalyzer::new().analyze("x", "--wf-tcp=443 --dpi-desync=fake --dpi-desync-ttl=100");
    assert_eq!(analysis.warnings, vec!["High TTL value (100) may cause issues".to_string()]);
    assert!(analysis.errors.is_empty());
    assert!(analysis.is_valid);
}

#[test]
fn analyze_zero_port_is_error() {
    let analysis = StrategyAnalyzer::new().analyze("x", "--wf-tcp=0,443 --wf-udp=0 --dpi-desync=fake");
    assert_eq!(
        analysis.errors,
        vec!["Invalid TCP port: 0".to_string(), "Invalid UDP port: 0".to_string()]
    );
    assert!(!analysis.is_valid);
}

#[test]
fn analyze_window_size_and_last_token_wins() {
    let analysis = StrategyAnalyzer::new().analyze("x", "--wssize=1:6 --wf-tcp=80 --wf-tcp=443");
    assert_eq!(analysis.features.window_size, Some(1));
    assert_eq!(analysis.features.tcp_ports, vec![443]);
    assert_eq!(analysis.strategy_id, "x");
}

#[test]
fn analyze_methods_trimmed_and_filtered() {
    let analysis = StrategyAnalyzer::new().analyze("x", "--dpi-desync=fake,,split2,");
    assert_eq!(analysis.features.desync_methods, vec!["fake".to_string(), "split2".to_string()]);
}

#[test]
fn disorder_is_read_from_the_desync_value_only() {
    let analyzer = StrategyAnalyzer::new();
    let analysis = analyzer.analyze("t", "--wf-tcp=443 --dpi-desync=fake --hostlist=nodisorder.txt");
    assert!(!analysis.features.uses_disorder);
    assert_eq!(analysis.features.desync_methods, vec!["fake".to_string()]);
    assert_eq!(analysis.features.tcp_ports, vec![443]);
    assert!(analysis.features.uses_hostlist);
    let analysis = analyzer.analyze("t", "--wf-tcp=443 --dpi-desync=fake,DISORDER2");
    assert!(analysis.features.uses_disorder);
    let analysis = analyzer.analyze("t", "--wf-tcp=443 --dpi-desync=disorder --new --dpi-desync=fake");
    assert!(analysis.features.uses_disorder);
}
