use asmith_bot::monitor::ConnectionMonitor;

#[test]
fn new_monitor_starts_clean() {
    let monitor = ConnectionMonitor::new(3);
    assert_eq!(monitor.max_retries, 3);
    assert_eq!(monitor.consecutive_failures, 0);
    assert_eq!(monitor.total_failures, 0);
    assert_eq!(monitor.failure_types.len(), 0);
}

#[test]
fn threshold_three_fires_on_third_consecutive_failure() {
    let mut monitor = ConnectionMonitor::new(3);
    assert!(!monitor.connection_failed("sync-error".to_owned()));
    assert!(!monitor.connection_failed("sync-error".to_owned()));
    assert!(monitor.connection_failed("sync-error".to_owned()));
}

#[test]
fn success_resets_consecutive_count_only() {
    let mut monitor = ConnectionMonitor::new(3);
    assert!(!monitor.connection_failed("sync-error".to_owned()));
    assert!(!monitor.connection_failed("sync-error".to_owned()));
    monitor.connection_successful();
    assert_eq!(monitor.consecutive_failures, 0);
    assert_eq!(monitor.total_failures, 2);
    assert!(!monitor.connection_failed("sync-error".to_owned()));
    assert!(!monitor.connection_failed("sync-error".to_owned()));
    assert!(monitor.connection_failed("sync-error".to_owned()));
    assert_eq!(monitor.total_failures, 5);
}

#[test]
fn consecutive_failures_count_since_last_success() {
    let mut monitor = ConnectionMonitor::new(10);
    monitor.connection_failed("a".to_owned());
    monitor.connection_failed("b".to_owned());
    monitor.connection_successful();
    monitor.connection_failed("a".to_owned());
    assert_eq!(monitor.consecutive_failures, 1);
    monitor.connection_failed("a".to_owned());
    monitor.connection_failed("c".to_owned());
    assert_eq!(monitor.consecutive_failures, 3);
    monitor.connection_successful();
    assert_eq!(monitor.consecutive_failures, 0);
    assert_eq!(monitor.total_failures, 5);
}

#[test]
fn failure_kinds_are_counted_separately() {
    let mut monitor = ConnectionMonitor::new(100);
    monitor.connection_failed("timeout".to_owned());
    monitor.connection_failed("dns".to_owned());
    monitor.connection_failed("timeout".to_owned());
    monitor.connection_failed("timeout".to_owned());
    let mut timeout_count = 0;
    let mut dns_count = 0;
    for (kind, count) in &monitor.failure_types {
        if kind == "timeout" {
            timeout_count = *count;
        }
        if kind == "dns" {
            dns_count = *count;
        }
    }
    assert_eq!(timeout_count, 3);
    assert_eq!(dns_count, 1);
    assert_eq!(monitor.failure_types.len(), 2);
    assert_eq!(monitor.total_failures, 4);
}

#[test]
fn threshold_one_fires_immediately() {
    let mut monitor = ConnectionMonitor::new(1);
    assert!(monitor.connection_failed("sync-error".to_owned()));
}
