use gmessages::db::{GmDatabase, GmStoredData};
use gmessages::outbox::{
    cancel_outbox_message_at, immediate_send_outcome, retry_outbox_message, GmOutboxConfig,
    GmOutboxEvent, GmOutboxPass, GmOutboxStep,
};
use gmessages::records::{GmError, GmMessageStatus, GmOutboxItem};

fn config() -> GmOutboxConfig {
    GmOutboxConfig { check_interval_ms: 5_000, max_concurrent_sends: 1, max_retry_attempts: 2 }
}

#[test]
fn failed_item_waits_for_its_backoff() {
    let mut db = GmDatabase::new();
    // a new store numbers outbox items from 0
    let id = db.add_to_outbox_at("acc", "t1", "local-1", "Hello", 1_000).unwrap();
    assert_eq!(id, 0);
    assert_eq!(db.get_pending_outbox_items_at(1_000).len(), 1);
    db.update_outbox_status_at(id, GmMessageStatus::Failed { error: "Network".to_string() }, Some("Network".to_string()), 1_000)
        .unwrap();
    let all = db.outbox_snapshot().0;
    assert_eq!(all[0].attempts, 1);
    assert_eq!(all[0].next_retry_at, Some(11_000));
    assert_eq!(all[0].last_error, Some("Network".to_string()));
    assert!(db.get_pending_outbox_items_at(10_999).is_empty());
    assert_eq!(db.get_pending_outbox_items_at(11_000).len(), 1);
    db.update_outbox_status_at(id, GmMessageStatus::Failed { error: "Network".to_string() }, None, 11_000)
        .unwrap();
    assert_eq!(db.outbox_snapshot().0[0].next_retry_at, Some(41_000));
}

#[test]
fn missing_outbox_item_is_an_error() {
    let mut db = GmDatabase::new();
    match db.update_outbox_status_at(7, GmMessageStatus::Sent, None, 0) {
        Err(GmError::DatabaseError { message }) => assert_eq!(message, "Outbox item not found: 7"),
        other => panic!("unexpected {:?}", other),
    }
    assert!(db.remove_from_outbox(7).is_ok());
}

#[test]
fn pass_sends_and_removes_on_success() {
    let mut db = GmDatabase::new();
    db.add_to_outbox_at("acc", "t1", "local-1", "Hello", 0).unwrap();
    db.add_to_outbox_at("acc", "t1", "local-2", "Again", 0).unwrap();
    let cfg = config();
    let mut pass = GmOutboxPass::begin(&db, &cfg, true, 10);
    let step = pass.next_step(&mut db, &cfg, 10);
    let id = match step {
        GmOutboxStep::Send { id, remote_thread_id, text, event } => {
            assert_eq!(remote_thread_id, "t1");
            assert_eq!(text, "Hello");
            assert!(matches!(event, GmOutboxEvent::Sending { ref local_message_uuid } if local_message_uuid == "local-1"));
            id
        },
        other => panic!("unexpected {:?}", other),
    };
    assert!(matches!(db.outbox_snapshot().0[0].status, GmMessageStatus::Sending));
    let event = pass.finish_send(&mut db, Ok("remote-9".to_string()), 11);
    match event {
        GmOutboxEvent::Sent { local_message_uuid, remote_message_id } => {
            assert_eq!(local_message_uuid, "local-1");
            assert_eq!(remote_message_id, "remote-9");
        },
        other => panic!("unexpected {:?}", other),
    }
    assert_eq!(id, 0);
    assert_eq!(db.get_outbox_size(), 1);
    // one item per pass
    assert!(matches!(pass.next_step(&mut db, &cfg, 12), GmOutboxStep::Done));
}

#[test]
fn pass_does_nothing_unless_authenticated() {
    let mut db = GmDatabase::new();
    db.add_to_outbox_at("acc", "t1", "local-1", "Hello", 0).unwrap();
    let cfg = config();
    let mut pass = GmOutboxPass::begin(&db, &cfg, false, 10);
    assert!(matches!(pass.next_step(&mut db, &cfg, 10), GmOutboxStep::Done));
    assert_eq!(db.get_outbox_size(), 1);
}

#[test]
fn failure_schedules_retry_and_auth_failure_stops() {
    let mut db = GmDatabase::new();
    db.add_to_outbox_at("acc", "t1", "local-1", "Hello", 0).unwrap();
    let cfg = GmOutboxConfig { check_interval_ms: 5_000, max_concurrent_sends: 5, max_retry_attempts: 2 };
    db.add_to_outbox_at("acc", "t1", "local-2", "Hi", 0).unwrap();
    let mut pass = GmOutboxPass::begin(&db, &cfg, true, 10);
    assert!(matches!(pass.next_step(&mut db, &cfg, 10), GmOutboxStep::Send { .. }));
    let event = pass.finish_send(&mut db, Err(GmError::NotAuthenticated), 10);
    match event {
        GmOutboxEvent::Failed { local_message_uuid, error, can_retry } => {
            assert_eq!(local_message_uuid, "local-1");
            assert_eq!(error, "Not authenticated with Google Messages");
            assert!(!can_retry);
        },
        other => panic!("unexpected {:?}", other),
    }
    // the pass stops after an authentication failure
    assert!(matches!(pass.next_step(&mut db, &cfg, 10), GmOutboxStep::Done));
    let items = db.outbox_snapshot().0;
    assert_eq!(items[0].attempts, 1);
    assert_eq!(items[0].next_retry_at, Some(10_010));
    assert!(matches!(items[1].status, GmMessageStatus::Queued));
}

#[test]
fn exhausted_item_gives_up() {
    let mut db = GmDatabase::new();
    let id = db.add_to_outbox_at("acc", "t1", "local-1", "Hello", 0).unwrap();
    db.update_outbox_status_at(id, GmMessageStatus::Failed { error: "e".to_string() }, None, 0).unwrap();
    db.update_outbox_status_at(id, GmMessageStatus::Failed { error: "e".to_string() }, None, 10_000).unwrap();
    let cfg = config();
    let mut pass = GmOutboxPass::begin(&db, &cfg, true, 1_000_000);
    match pass.next_step(&mut db, &cfg, 1_000_000) {
        GmOutboxStep::GaveUp { event: GmOutboxEvent::MaxRetriesReached { local_message_uuid } } => {
            assert_eq!(local_message_uuid, "local-1")
        },
        other => panic!("unexpected {:?}", other),
    }
    let items = db.outbox_snapshot().0;
    assert_eq!(items[0].attempts, 3);
    assert_eq!(items[0].next_retry_at, Some(i64::MAX));
    assert_eq!(items[0].last_error, Some("Max retries exceeded".to_string()));
    assert!(matches!(items[0].status, GmMessageStatus::Failed { ref error } if error == "Max retries exceeded"));
    // given up for good: not due again, so not reported again
    assert!(db.get_pending_outbox_items_at(1_000_000).is_empty());
    assert!(db.get_pending_outbox_items_at(i64::MAX - 1).is_empty());
    let mut next = GmOutboxPass::begin(&db, &cfg, true, 2_000_000);
    assert!(matches!(next.next_step(&mut db, &cfg, 2_000_000), GmOutboxStep::Done));
    // a manual retry brings it back
    assert!(retry_outbox_message(&mut db, "local-1").is_ok());
    let items = db.outbox_snapshot().0;
    assert_eq!(items[0].attempts, 0);
    assert_eq!(items[0].next_retry_at, None);
    assert_eq!(items[0].last_error, None);
    assert!(matches!(items[0].status, GmMessageStatus::Queued));
    assert_eq!(db.get_pending_outbox_items_at(0).len(), 1);
}

#[test]
fn retry_and_cancel_by_local_id() {
    let mut db = GmDatabase::new();
    let id = db.add_to_outbox_at("acc", "t1", "local-1", "Hello", 0).unwrap();
    db.add_to_outbox_at("acc", "t1", "local-2", "Bye", 0).unwrap();
    match retry_outbox_message(&mut db, "ghost") {
        Err(GmError::DatabaseError { message }) => assert_eq!(message, "Message not found in outbox: ghost"),
        other => panic!("unexpected {:?}", other),
    }
    db.update_outbox_status_at(id, GmMessageStatus::Failed { error: "e".to_string() }, Some("e".to_string()), 0)
        .unwrap();
    // still waiting out its backoff: a manual retry resets it all the same
    assert!(db.get_pending_outbox_items_at(5).len() == 1);
    assert!(retry_outbox_message(&mut db, "local-1").is_ok());
    let items = db.outbox_snapshot().0;
    assert!(matches!(items[0].status, GmMessageStatus::Queued));
    assert_eq!(items[0].attempts, 0);
    assert_eq!(items[0].next_retry_at, None);
    assert_eq!(items[0].last_error, None);
    assert_eq!(db.get_pending_outbox_items_at(5).len(), 2);
    assert!(cancel_outbox_message_at(&mut db, "local-2", 10_000).is_ok());
    assert_eq!(db.get_outbox_size(), 1);
    match cancel_outbox_message_at(&mut db, "local-2", 10_000) {
        Err(GmError::DatabaseError { message }) => assert_eq!(message, "Message not found in outbox: local-2"),
        other => panic!("unexpected {:?}", other),
    }
}

#[test]
fn status_update_of_missing_item_is_not_found() {
    let mut db = GmDatabase::new();
    match db.update_outbox_status(3, GmMessageStatus::Failed { error: "x".to_string() }, None) {
        Err(GmError::DatabaseError { message }) => assert_eq!(message, "Outbox item not found: 3"),
        other => panic!("unexpected {:?}", other),
    }
    let id = db.add_to_outbox_at("acc", "t", "l", "x", 0).unwrap();
    assert!(db.update_outbox_status(id, GmMessageStatus::Sending, None).is_ok());
    assert!(matches!(db.outbox_snapshot().0[0].status, GmMessageStatus::Sending));
}

#[test]
fn immediate_send_outcomes() {
    let mut db = GmDatabase::new();
    let ok = immediate_send_outcome(&mut db, "acc", "t1", "l1", "hi", Ok("r1".to_string()), 0);
    assert!(ok.success);
    assert_eq!(ok.remote_message_id, Some("r1".to_string()));
    assert_eq!(db.get_outbox_size(), 0);

    let retry = immediate_send_outcome(
        &mut db,
        "acc",
        "t1",
        "l2",
        "hi",
        Err(GmError::NetworkError { message: "down".to_string() }),
        0,
    );
    assert!(!retry.success);
    assert!(retry.can_retry);
    assert_eq!(retry.error, Some("Network error: down".to_string()));
    assert_eq!(db.get_outbox_size(), 1);

    let auth = immediate_send_outcome(&mut db, "acc", "t1", "l3", "hi", Err(GmError::NotAuthenticated), 0);
    assert!(!auth.can_retry);
    assert_eq!(db.get_outbox_size(), 1);
}

#[test]
fn loaded_failed_item_without_retry_time_is_pending() {
    let mut db = GmDatabase::new();
    let item = GmOutboxItem {
        id: 4,
        account_id: "acc".to_string(),
        remote_thread_id: "t".to_string(),
        local_message_uuid: "l".to_string(),
        text: "x".to_string(),
        status: GmMessageStatus::Failed { error: "e".to_string() },
        attempts: 1,
        next_retry_at: None,
        last_error: Some("e".to_string()),
        created_at: 0,
    };
    let sending = GmOutboxItem { id: 5, status: GmMessageStatus::Sending, ..item.clone() };
    db.load_all(GmStoredData { threads: None, messages: None, outbox: Some((vec![item, sending], 6)), cursors: None });
    let pending = db.get_pending_outbox_items_at(0);
    assert_eq!(pending.len(), 1);
    assert_eq!(pending[0].id, 4);
    assert_eq!(db.next_outbox_id(), 6);
}
