use isolate_core::models::TestDefinition;
use isolate_core::service_checks::{
    classify_io_error, classify_request_error, dns_result, effective_timeout_ms, get_body_result,
    get_status_result, head_result, socks5_connect_outcome, socks5_connect_request, socks5_greeting,
    socks5_greeting_accepted, test_id, timeout_result, ErrorType, IoFailure,
};

#[test]
fn check_ids_name_the_target() {
    let get = TestDefinition::HttpsGet { url: "https://a/b".to_string(), timeout_ms: 1, expected_status: vec![], min_body_size: None };
    assert_eq!(test_id(&get), "http_get:https://a/b");
    let ws = TestDefinition::WebSocket { url: "wss://c".to_string(), timeout_ms: 1 };
    assert_eq!(test_id(&ws), "http_head:wss://c");
    let tcp = TestDefinition::TcpConnect { host: "h".to_string(), port: 443, timeout_ms: 1 };
    assert_eq!(test_id(&tcp), "tcp:h:443");
    let dns = TestDefinition::Dns { domain: "d.org".to_string(), timeout_ms: 1 };
    assert_eq!(test_id(&dns), "dns:d.org");
}

#[test]
fn timeouts_are_capped() {
    assert_eq!(effective_timeout_ms(1000), 1000);
    assert_eq!(effective_timeout_ms(9000), 5000);
    let t = timeout_result("x", 9000, "Request timeout");
    assert_eq!(t.latency_ms, Some(9000));
    assert_eq!(t.error_type, Some(ErrorType::Timeout));
}

#[test]
fn https_get_results() {
    let r = get_status_result("g", 500, &[200, 204], None, 12).unwrap();
    assert!(!r.success);
    assert_eq!(r.error_message, Some("Unexpected status: 500".to_string()));
    assert!(get_status_result("g", 204, &[200, 204], None, 12).unwrap().success);
    assert!(get_status_result("g", 404, &[], None, 12).unwrap().success);
    assert!(get_status_result("g", 200, &[], Some(10), 12).is_none());
    let small = get_body_result("g", 3, 10, Ok(4));
    assert_eq!(small.error_message, Some("Body too small: 4 < 10".to_string()));
    assert!(get_body_result("g", 3, 10, Ok(10)).success);
    let failed = get_body_result("g", 3, 10, Err("reset".to_string()));
    assert_eq!(failed.error_type, Some(ErrorType::Http));
    assert_eq!(failed.error_message, Some("reset".to_string()));
}

#[test]
fn head_and_dns_results() {
    assert!(head_result("h", 301, "301 Moved Permanently", 1).success);
    let r = head_result("h", 403, "403 Forbidden", 1);
    assert_eq!(r.error_message, Some("Status: 403 Forbidden".to_string()));
    let d = dns_result("d", 0, 2);
    assert_eq!(d.error_type, Some(ErrorType::Dns));
    assert_eq!(d.error_message, Some("No addresses resolved".to_string()));
    assert!(dns_result("d", 2, 2).success);
}

#[test]
fn failures_are_classified() {
    assert_eq!(classify_request_error(true, true, true, "x"), ErrorType::Timeout);
    assert_eq!(classify_request_error(false, true, true, "x"), ErrorType::Tcp);
    assert_eq!(classify_request_error(false, false, true, "DNS error: failed to lookup"), ErrorType::Dns);
    assert_eq!(classify_request_error(false, false, true, "invalid peer Certificate"), ErrorType::Tls);
    assert_eq!(classify_request_error(false, false, true, "bad header"), ErrorType::Http);
    assert_eq!(classify_request_error(false, false, false, "dns"), ErrorType::Unknown);
    assert_eq!(classify_io_error(IoFailure::ConnectionReset, ""), ErrorType::Tcp);
    assert_eq!(classify_io_error(IoFailure::NotFound, ""), ErrorType::Dns);
    assert_eq!(classify_io_error(IoFailure::Other, "SSL handshake"), ErrorType::Tls);
    assert_eq!(classify_io_error(IoFailure::Other, "broken pipe"), ErrorType::Unknown);
}

#[test]
fn socks5_messages() {
    assert_eq!(socks5_greeting(), vec![5, 1, 0]);
    assert!(socks5_greeting_accepted(&[5, 0]));
    assert!(!socks5_greeting_accepted(&[5, 255]));
    assert_eq!(
        socks5_connect_request("ab.c", 443),
        vec![5, 1, 0, 3, 4, b'a', b'b', b'.', b'c', 1, 187]
    );
    assert!(socks5_connect_outcome(&[5, 0, 0, 1, 0, 0, 0, 0, 0, 0]).is_ok());
    assert_eq!(socks5_connect_outcome(&[5, 5, 0, 1, 0, 0, 0, 0, 0, 0]), Err("SOCKS5 connect failed: 5".to_string()));
}
