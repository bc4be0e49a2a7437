use isolate_core::endpoints::{EndpointRegistry, TestEndpoint};
use isolate_core::models::{Service, TestDefinition};

#[test]
fn test_endpoint_new() {
    let endpoint = TestEndpoint::new("https://example.com", "Example", true);
    assert_eq!(endpoint.url, "https://example.com");
    assert_eq!(endpoint.name, "Example");
    assert!(endpoint.is_critical);
}

#[test]
fn test_endpoint_critical() {
    let endpoint = TestEndpoint::critical("https://youtube.com", "YouTube");
    assert!(endpoint.is_critical);
}

#[test]
fn test_endpoint_optional() {
    let endpoint = TestEndpoint::optional("https://telegram.org", "Telegram");
    assert!(!endpoint.is_critical);
}

#[test]
fn test_registry_default() {
    let registry = EndpointRegistry::default();
    assert!(!registry.is_empty());
    assert!(registry.len() >= 3);

    assert!(registry.find_by_name("YouTube").is_some());
    assert!(registry.find_by_name("Discord").is_some());
    assert!(registry.find_by_name("Telegram").is_some());

    let youtube = registry.find_by_name("YouTube").unwrap();
    assert!(youtube.is_critical);

    let discord = registry.find_by_name("Discord").unwrap();
    assert!(discord.is_critical);

    let telegram = registry.find_by_name("Telegram").unwrap();
    assert!(!telegram.is_critical);
}

#[test]
fn test_registry_new_empty() {
    let registry = EndpointRegistry::new();
    assert!(registry.is_empty());
    assert_eq!(registry.len(), 0);
}

#[test]
fn test_registry_add() {
    let mut registry = EndpointRegistry::new();
    registry.add(TestEndpoint::critical("https://test.com", "Test"));

    assert_eq!(registry.len(), 1);
    assert!(!registry.is_empty());
}

#[test]
fn test_registry_add_all() {
    let mut registry = EndpointRegistry::new();
    registry.add_all(vec![
        TestEndpoint::critical("https://a.com", "A"),
        TestEndpoint::optional("https://b.com", "B"),
    ]);

    assert_eq!(registry.len(), 2);
}

#[test]
fn test_registry_get_critical() {
    let registry = EndpointRegistry::default();
    let critical = registry.get_critical();

    assert!(!critical.is_empty());
    for endpoint in critical {
        assert!(endpoint.is_critical);
    }
}

#[test]
fn test_registry_get_optional() {
    let registry = EndpointRegistry::default();
    let optional = registry.get_optional();

    for endpoint in optional {
        assert!(!endpoint.is_critical);
    }
}

#[test]
fn test_registry_critical_count() {
    let mut registry = EndpointRegistry::new();
    registry.add(TestEndpoint::critical("https://a.com", "A"));
    registry.add(TestEndpoint::critical("https://b.com", "B"));
    registry.add(TestEndpoint::optional("https://c.com", "C"));

    assert_eq!(registry.critical_count(), 2);
}

#[test]
fn test_registry_find_by_name() {
    let registry = EndpointRegistry::default();

    assert!(registry.find_by_name("youtube").is_some());
    assert!(registry.find_by_name("YOUTUBE").is_some());
    assert!(registry.find_by_name("YouTube").is_some());

    assert!(registry.find_by_name("NonExistent").is_none());
}

#[test]
fn test_registry_clear() {
    let mut registry = EndpointRegistry::default();
    assert!(!registry.is_empty());

    registry.clear();
    assert!(registry.is_empty());
}

#[test]
fn test_registry_merge() {
    let mut registry1 = EndpointRegistry::new();
    registry1.add(TestEndpoint::critical("https://a.com", "A"));

    let mut registry2 = EndpointRegistry::new();
    registry2.add(TestEndpoint::optional("https://b.com", "B"));

    registry1.merge(&registry2);
    assert_eq!(registry1.len(), 2);
}

#[test]
fn test_registry_from_services() {
    let services = vec![
        Service {
            id: "youtube".to_string(),
            name: "YouTube".to_string(),
            enabled_by_default: true,
            critical: true,
            tests: vec![TestDefinition::HttpsGet {
                url: "https://www.youtube.com/generate_204".to_string(),
                timeout_ms: 5000,
                expected_status: vec![204],
                min_body_size: None,
            }],
            test_url: None,
        },
        Service {
            id: "discord".to_string(),
            name: "Discord".to_string(),
            enabled_by_default: true,
            critical: true,
            tests: vec![],
            test_url: Some("https://discord.com/api/v10/gateway".to_string()),
        },
        Service {
            id: "telegram".to_string(),
            name: "Telegram".to_string(),
            enabled_by_default: true,
            critical: false,
            tests: vec![],
            test_url: Some("https://api.telegram.org/".to_string()),
        },
        Service {
            id: "no_url".to_string(),
            name: "No URL".to_string(),
            enabled_by_default: true,
            critical: false,
            tests: vec![TestDefinition::TcpConnect { host: "example.com".to_string(), port: 443, timeout_ms: 5000 }],
            test_url: None,
        },
    ];

    let registry = EndpointRegistry::from_services(&services);

    assert_eq!(registry.len(), 3);

    let youtube = registry.find_by_name("YouTube").unwrap();
    assert!(youtube.is_critical);

    let telegram = registry.find_by_name("Telegram").unwrap();
    assert!(!telegram.is_critical);
}

#[test]
fn critical_and_optional_split_the_registry() {
    let mut registry = EndpointRegistry::default();
    registry.add(TestEndpoint::optional("https://x.org", "X"));
    let c = registry.get_critical();
    let o = registry.get_optional();
    assert_eq!(c.len() + o.len(), registry.len());
    assert_eq!(c.len(), registry.critical_count());
    assert_eq!(o[1].name, "X");
}

#[test]
fn find_by_name_returns_the_first_match() {
    let mut registry = EndpointRegistry::new();
    registry.add(TestEndpoint::optional("https://one", "Dup"));
    registry.add(TestEndpoint::critical("https://two", "DUP"));
    assert_eq!(registry.find_by_name("dup").unwrap().url, "https://one");
}

#[test]
fn merge_keeps_order_and_leaves_other_unchanged() {
    let mut a = EndpointRegistry::new();
    a.add(TestEndpoint::critical("https://a", "A"));
    let b = EndpointRegistry::default();
    a.merge(&b);
    assert_eq!(b.len(), 3);
    let names: Vec<&str> = a.get_all().iter().map(|e| e.name.as_str()).collect();
    assert_eq!(names, vec!["A", "YouTube", "Discord", "Telegram"]);
}

#[test]
fn service_test_url_prefers_explicit_url_then_first_get() {
    let s = Service {
        id: "s".to_string(),
        name: "S".to_string(),
        enabled_by_default: false,
        critical: false,
        tests: vec![
            TestDefinition::Dns { domain: "d".to_string(), timeout_ms: 1 },
            TestDefinition::HttpsGet { url: "https://first".to_string(), timeout_ms: 1, expected_status: vec![], min_body_size: Some(1) },
            TestDefinition::HttpsGet { url: "https://second".to_string(), timeout_ms: 1, expected_status: vec![], min_body_size: None },
        ],
        test_url: None,
    };
    assert_eq!(s.get_test_url(), Some("https://first".to_string()));
    let t = Service { test_url: Some("https://explicit".to_string()), ..s };
    assert_eq!(t.get_test_url(), Some("https://explicit".to_string()));
}
