use asmith_bot::monitor::ConnectionMonitor;
use asmith_bot::session::{ClientStoreConfig, MatrixSessionData};
use asmith_bot::sync::{SyncAction, SyncEvent, SyncLoop};

fn store() -> ClientStoreConfig {
    ClientStoreConfig {
        store_path: "/data/store/abc".to_owned(),
        store_passphrase: "SECRET-REDACTED".to_owned(),
    }
}

fn auth() -> MatrixSessionData {
    MatrixSessionData {
        user_id: "@bot:example.org".to_owned(),
        device_id: "DEV1".to_owned(),
        access_token: "token".to_owned(),
        refresh_token: None,
    }
}

#[test]
fn successful_cycle_persists_exactly_the_polled_cursor() {
    let mut sync = SyncLoop::new(None, ConnectionMonitor::new(3));
    let action = sync.step(
        SyncEvent::Succeeded { next_cursor: "batch_1".to_owned() },
        &store(),
        &auth(),
    );
    match action {
        SyncAction::PersistAndContinue { snapshot } => {
            assert_eq!(snapshot.sync_token.as_deref(), Some("batch_1"));
            assert_eq!(snapshot.client_store_config.store_path, "/data/store/abc");
            assert_eq!(snapshot.client_store_config.store_passphrase, "SECRET-REDACTED");
            assert_eq!(snapshot.matrix_session.user_id, "@bot:example.org");
        }
        _ => panic!("a successful cycle must persist and continue"),
    }
    assert_eq!(sync.cursor.as_deref(), Some("batch_1"));
    assert!(!sync.terminated);
}

#[test]
fn failure_keeps_the_cursor_and_retries_within_budget() {
    let mut sync = SyncLoop::new(Some("batch_7".to_owned()), ConnectionMonitor::new(3));
    let action = sync.step(
        SyncEvent::Failed { kind: "sync-error".to_owned() },
        &store(),
        &auth(),
    );
    assert!(matches!(action, SyncAction::RetryAfterDelay));
    assert_eq!(sync.cursor.as_deref(), Some("batch_7"));
    assert!(!sync.terminated);
}

#[test]
fn exhausted_budget_terminates_the_loop() {
    let mut sync = SyncLoop::new(None, ConnectionMonitor::new(2));
    let a1 = sync.step(SyncEvent::Failed { kind: "sync-error".to_owned() }, &store(), &auth());
    assert!(matches!(a1, SyncAction::RetryAfterDelay));
    let a2 = sync.step(SyncEvent::Failed { kind: "sync-error".to_owned() }, &store(), &auth());
    assert!(matches!(a2, SyncAction::Terminate));
    assert!(sync.terminated);
}

#[test]
fn success_resets_the_retry_budget() {
    let mut sync = SyncLoop::new(None, ConnectionMonitor::new(2));
    sync.step(SyncEvent::Failed { kind: "sync-error".to_owned() }, &store(), &auth());
    sync.step(SyncEvent::Succeeded { next_cursor: "b1".to_owned() }, &store(), &auth());
    let a = sync.step(SyncEvent::Failed { kind: "sync-error".to_owned() }, &store(), &auth());
    assert!(matches!(a, SyncAction::RetryAfterDelay));
    assert_eq!(sync.monitor.total_failures, 2);
}

#[test]
fn persisted_cursors_come_only_from_successful_polls() {
    let mut sync = SyncLoop::new(None, ConnectionMonitor::new(10));
    let polled = ["b1", "b2", "b3"];
    let mut persisted: Vec<String> = Vec::new();
    for (i, cursor) in polled.iter().enumerate() {
        if i == 1 {
            let a = sync.step(
                SyncEvent::Failed { kind: "sync-error".to_owned() },
                &store(),
                &auth(),
            );
            assert!(matches!(a, SyncAction::RetryAfterDelay));
        }
        let action = sync.step(
            SyncEvent::Succeeded { next_cursor: (*cursor).to_owned() },
            &store(),
            &auth(),
        );
        if let SyncAction::PersistAndContinue { snapshot } = action {
            persisted.push(snapshot.sync_token.unwrap());
        } else {
            panic!("a successful cycle must persist and continue");
        }
    }
    for cursor in &persisted {
        assert!(polled.contains(&cursor.as_str()));
    }
    assert_eq!(persisted, vec!["b1", "b2", "b3"]);
}
