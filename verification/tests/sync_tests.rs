use gmessages::db::GmDatabase;
use gmessages::models::GMPairingState;
use gmessages::records::{GmError, GmMessage, GmMessageDirection, GmMessageStatus, GmThreadSummary};
use gmessages::sync::{
    should_sync, sync_from_webview_data, sync_receive_messages, sync_receive_thread, GmSyncConfig,
    GmSyncEvent, GmSyncRecovery, GmSyncState, GmSyncTally, GmSyncWait,
};

fn thread(id: &str, updated_at: i64) -> GmThreadSummary {
    GmThreadSummary {
        remote_thread_id: id.to_string(),
        local_thread_uuid: None,
        display_name: None,
        participants: vec![],
        last_message_snippet: None,
        last_message_timestamp: None,
        unread_count: 0,
        is_group: false,
        updated_at,
    }
}

fn message(id: &str, thread: &str, ts: i64) -> GmMessage {
    GmMessage {
        remote_message_id: id.to_string(),
        remote_thread_id: thread.to_string(),
        local_message_uuid: None,
        text: None,
        timestamp: ts,
        direction: GmMessageDirection::Incoming,
        status: GmMessageStatus::Sent,
        sender: None,
        is_read: false,
    }
}

#[test]
fn sync_runs_only_when_paired_and_authenticated() {
    assert!(should_sync(GMPairingState::Paired, true));
    assert!(!should_sync(GMPairingState::Paired, false));
    assert!(!should_sync(GMPairingState::Expired, true));
    assert!(!should_sync(GMPairingState::NotPaired, true));
}

#[test]
fn failures_back_off_then_stop() {
    let cfg = GmSyncConfig::default();
    assert!(cfg.is_valid());
    let mut st = GmSyncState::new();
    assert!(!st.start());
    assert!(st.start());
    let err = GmError::NetworkError { message: "down".to_string() };
    let mut waits = vec![];
    for _ in 0..5 {
        let (event, recovery) = st.on_sync_failure(&cfg, &err);
        assert!(matches!(event, GmSyncEvent::Failed { ref error } if error == "Network error: down"));
        waits.push(recovery);
    }
    assert_eq!(
        waits,
        vec![
            GmSyncRecovery::Backoff { ms: 10_000 },
            GmSyncRecovery::Backoff { ms: 20_000 },
            GmSyncRecovery::Backoff { ms: 40_000 },
            GmSyncRecovery::Backoff { ms: 80_000 },
            GmSyncRecovery::Stop,
        ]
    );
    assert_eq!(st.get_last_error(), Some("Network error: down".to_string()));
    assert_eq!(st.get_consecutive_errors(), 5);
    // the error limit stops the loop
    assert!(!st.is_running());
}

#[test]
fn backoff_range_checks() {
    let cfg = GmSyncConfig::default();
    assert!(cfg.backoff_fits(1));
    assert!(cfg.backoff_fits(50));
    assert!(!cfg.backoff_fits(63));
    assert!(!cfg.backoff_fits(64));
    let big = GmSyncConfig {
        foreground_interval_ms: 1,
        background_interval_ms: 0,
        max_consecutive_errors: 100,
        error_backoff_base_ms: 5_000,
        error_backoff_max_ms: 300_000,
    };
    // a large error limit is fine as long as the backoffs used fit
    let mut st = GmSyncState::new();
    let (_, recovery) = st.on_sync_failure(&big, &GmError::Unknown { message: "x".to_string() });
    assert_eq!(recovery, GmSyncRecovery::Backoff { ms: 10_000 });
}

#[test]
fn waits_follow_the_interval() {
    let cfg = GmSyncConfig::default();
    let mut st = GmSyncState::new();
    assert_eq!(st.next_wait(&cfg), GmSyncWait::Interval { ms: 15_000 });
    st.set_foreground(false);
    // background sync disabled: wait to be woken
    assert_eq!(st.next_wait(&cfg), GmSyncWait::UntilWoken);
}

#[test]
fn auth_failure_stops_the_loop() {
    let cfg = GmSyncConfig::default();
    let mut st = GmSyncState::new();
    st.start();
    let (_, recovery) = st.on_sync_failure(&cfg, &GmError::NotAuthenticated);
    assert_eq!(recovery, GmSyncRecovery::SessionExpired);
    assert!(!st.is_running());
}

#[test]
fn success_resets_and_intervals_follow_foreground() {
    let cfg = GmSyncConfig::default();
    let mut st = GmSyncState::new();
    st.on_sync_failure(&cfg, &GmError::Unknown { message: "x".to_string() });
    let event = st.on_sync_success(99, 2, 3);
    assert!(matches!(event, GmSyncEvent::Completed { threads_updated: 2, messages_new: 3 }));
    assert_eq!(st.get_last_sync_at(), 99);
    assert_eq!(st.get_last_error(), None);
    assert_eq!(st.current_interval(&cfg), 15_000);
    assert!(!st.set_foreground(false));
    assert_eq!(st.current_interval(&cfg), 0);
    assert!(st.set_foreground(true));
    assert!(!st.set_foreground(true));
}

#[test]
fn invalid_config_is_detected() {
    let cfg = GmSyncConfig {
        foreground_interval_ms: 1,
        background_interval_ms: 0,
        max_consecutive_errors: 100,
        error_backoff_base_ms: 5_000,
        error_backoff_max_ms: 300_000,
    };
    assert!(!cfg.is_valid());
}

#[test]
fn receive_thread_and_messages() {
    let mut db = GmDatabase::new();
    let mut tally = GmSyncTally { threads_updated: 0, messages_new: 0 };
    let cursor = sync_receive_thread(&mut db, &mut tally, thread("t1", 10));
    assert_eq!(cursor, None);
    let event = sync_receive_messages(
        &mut db,
        &mut tally,
        "t1",
        vec![message("m1", "t1", 1), message("m2", "t1", 2)],
        Some("c-2".to_string()),
        50,
    );
    assert!(matches!(event, Some(GmSyncEvent::NewMessages { ref thread_id, count: 2 }) if thread_id == "t1"));
    assert_eq!(tally, GmSyncTally { threads_updated: 1, messages_new: 2 });
    assert_eq!(db.get_cursor("t1"), Some("c-2".to_string()));
    let again = sync_receive_thread(&mut db, &mut tally, thread("t1", 20));
    assert_eq!(again, Some("c-2".to_string()));
    assert!(sync_receive_messages(&mut db, &mut tally, "t1", vec![], None, 60).is_none());
    assert_eq!(db.get_messages("t1", 10, None).len(), 2);
}

#[test]
fn webview_data_counts() {
    let mut db = GmDatabase::new();
    let r = sync_from_webview_data(
        &mut db,
        Some(vec![thread("a", 1), thread("b", 1)]),
        Some(vec![message("m", "a", 1), message("m", "a", 1)]),
    );
    assert!(matches!(r, Ok((2, 2))));
    assert_eq!(db.get_threads().len(), 2);
    assert_eq!(db.get_messages("a", 10, None).len(), 1);
    assert!(matches!(sync_from_webview_data(&mut db, None, None), Ok((0, 0))));
}
