use isolate_core::telemetry::{anonymize_error_message, is_uuid, TelemetryService, MAX_PENDING_EVENTS};

#[test]
fn test_anonymize_error_message() {
    let msg = "Error at C:\\Users\\john\\Documents\\file.txt";
    let anon = anonymize_error_message(msg);
    assert!(anon.contains("[PATH]"));
    assert!(!anon.contains("john"));

    let msg = "Connection failed to 192.168.1.100:8080";
    let anon = anonymize_error_message(msg);
    assert!(anon.contains("[IP]"));
    assert!(!anon.contains("192.168"));

    let msg = "Session 550e8400-e29b-41d4-a716-446655440000 expired";
    let anon = anonymize_error_message(msg);
    assert!(anon.contains("[UUID]"));
    assert!(!anon.contains("550e8400"));

    let msg = "User user@example.com not found";
    let anon = anonymize_error_message(msg);
    assert!(anon.contains("[EMAIL]"));
    assert!(!anon.contains("user@example.com"));
}

#[test]
fn anonymize_exact_outputs() {
    assert_eq!(anonymize_error_message("Error at C:\\Users\\john\\file.txt now"), "Error at [PATH] now");
    assert_eq!(anonymize_error_message("open /home/alice/x failed"), "open [PATH] failed");
    assert_eq!(anonymize_error_message("see /usr/lib"), "see /usr/lib");
    assert_eq!(anonymize_error_message("to 192.168.1.100:8080"), "to [IP]:8080");
    assert_eq!(anonymize_error_message("bad 999.1.1.1 ip"), "bad 9[IP] ip");
    assert_eq!(anonymize_error_message("version 1.2.3"), "version 1.2.3");
    assert_eq!(anonymize_error_message("id 550e8400-e29b-41d4-a716-446655440000."), "id [UUID].");
    assert_eq!(anonymize_error_message("mail user@example.com!"), "mail [EMAIL]!");
    assert_eq!(anonymize_error_message("a@b"), "a@b");
    assert_eq!(anonymize_error_message(""), "");
    assert_eq!(anonymize_error_message("plain text"), "plain text");
}

#[test]
fn is_uuid_checks_layout() {
    assert!(is_uuid("550e8400-e29b-41d4-a716-446655440000"));
    assert!(!is_uuid("550e8400-e29b-41d4-a716-44665544000g"));
    assert!(!is_uuid("550e8400e29b-41d4-a716-4466554400000"));
    assert!(!is_uuid("short"));
}

fn event(kind: &str) -> String {
    kind.to_string()
}

#[test]
fn test_disabled_by_default() {
    let service: TelemetryService<String> = TelemetryService::new();
    assert!(!service.is_enabled());
    assert_eq!(service.endpoint(), "https://telemetry.isolate.app/v1/events");
    assert_eq!(service.flush_interval_secs(), 300);
}

#[test]
fn test_enable_disable() {
    let mut service: TelemetryService<String> = TelemetryService::new();
    service.set_enabled(true);
    assert!(service.is_enabled());
    service.set_enabled(false);
    assert!(!service.is_enabled());
}

#[test]
fn test_no_events_when_disabled() {
    let mut service = TelemetryService::new();
    assert!(!service.record(event("optimization")));
    assert_eq!(service.pending_events(), 0);
}

#[test]
fn test_events_recorded_when_enabled() {
    let mut service = TelemetryService::new();
    service.set_enabled(true);
    assert!(service.record(event("optimization")));
    assert_eq!(service.pending_events(), 1);
    service.record(event("strategy_usage"));
    assert_eq!(service.pending_events(), 2);
    service.record(event("error"));
    assert_eq!(service.pending_events(), 3);
}

#[test]
fn test_clear_events() {
    let mut service = TelemetryService::new();
    service.set_enabled(true);
    service.record(event("optimization"));
    assert_eq!(service.pending_events(), 1);
    service.clear();
    assert_eq!(service.pending_events(), 0);
}

#[test]
fn test_flush_clears_batch_when_disabled() {
    let mut service = TelemetryService::new();
    service.set_enabled(true);
    service.record(event("optimization"));
    assert_eq!(service.pending_events(), 1);
    service.set_enabled(false);
    assert!(service.begin_flush().is_none());
    assert_eq!(service.pending_events(), 0);
}

#[test]
fn flush_hands_out_events_in_order() {
    let mut service = TelemetryService::new();
    service.set_enabled(true);
    assert!(service.begin_flush().is_none());
    service.record(event("a"));
    service.record(event("b"));
    let sent = service.begin_flush().unwrap();
    assert_eq!(sent, vec!["a".to_string(), "b".to_string()]);
    assert_eq!(service.pending_events(), 0);
    // the send failed while another event came in
    service.record(event("c"));
    service.flush_failed(sent);
    let again = service.begin_flush().unwrap();
    assert_eq!(again, vec!["c".to_string(), "a".to_string(), "b".to_string()]);
}

#[test]
fn failed_flush_drops_oldest_beyond_limit() {
    let mut service = TelemetryService::new();
    service.set_enabled(true);
    for i in 0..(MAX_PENDING_EVENTS + 5) {
        service.record(format!("e{}", i));
    }
    let sent = service.begin_flush().unwrap();
    assert_eq!(sent.len(), MAX_PENDING_EVENTS + 5);
    service.flush_failed(sent);
    assert_eq!(service.pending_events(), MAX_PENDING_EVENTS);
    let kept = service.begin_flush().unwrap();
    assert_eq!(kept[0], "e5");
    assert_eq!(kept[MAX_PENDING_EVENTS - 1], format!("e{}", MAX_PENDING_EVENTS + 4));
}

#[test]
fn plain_messages_pass_unchanged() {
    assert_eq!(anonymize_error_message("Connection timeout"), "Connection timeout");
    assert_eq!(anonymize_error_message("Failed to start strategy. Retrying"), "Failed to start strategy. Retrying");
    assert_eq!(anonymize_error_message(""), "");
}

#[test]
fn address_before_a_full_stop_is_removed() {
    assert_eq!(anonymize_error_message("Connection failed to 10.0.0.1."), "Connection failed to [IP].");
    assert_eq!(anonymize_error_message("Hosts 10.0.0.1... and 1.2.3.4"), "Hosts [IP]... and [IP]");
    assert_eq!(anonymize_error_message("Mail user@example.com now"), "Mail [EMAIL] now");
}
