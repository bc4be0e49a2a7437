use isolate_core::history::MetricsHistory;

struct MetricsSnapshot {
    strategy_id: String,
    uptime_secs: u64,
    bytes_sent_per_second: f64,
}

fn snapshot(i: u64) -> MetricsSnapshot {
    MetricsSnapshot { strategy_id: format!("strategy-{}", i), uptime_secs: i, bytes_sent_per_second: 0.0 }
}

#[test]
fn test_metrics_history_ring_buffer() {
    let mut history = MetricsHistory::new(5);
    for i in 0..10u64 {
        history.push(1_000 * i as i64, snapshot(i));
    }
    assert_eq!(history.len(), 5);
    let all = history.get_all();
    assert_eq!(all[0].strategy_id, "strategy-5");
    assert_eq!(all[4].strategy_id, "strategy-9");
    assert_eq!(all[4].bytes_sent_per_second, 0.0);
}

#[test]
fn history_since_and_cleanup() {
    let mut history = MetricsHistory::new(10);
    assert!(history.is_empty());
    for i in 0..6u64 {
        history.push(100 * i as i64, snapshot(i));
    }
    let recent: Vec<u64> = history.get_since(300).iter().map(|s| s.uptime_secs).collect();
    assert_eq!(recent, vec![3, 4, 5]);
    assert!(history.get_since(10_000).is_empty());
    history.cleanup_older_than(200);
    assert_eq!(history.len(), 4);
    assert_eq!(history.get_all()[0].uptime_secs, 2);
    history.clear();
    assert!(history.is_empty());
}

#[test]
fn history_of_size_zero_keeps_the_last_snapshot() {
    let mut history = MetricsHistory::new(0);
    history.push(1, snapshot(1));
    history.push(2, snapshot(2));
    assert_eq!(history.len(), 1);
    assert_eq!(history.get_all()[0].uptime_secs, 2);
}
