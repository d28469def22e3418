use gmessages::db::GmDatabase;
use gmessages::records::{GmMessage, GmMessageDirection, GmMessageStatus, GmThreadSummary};

fn now_millis() -> i64 {
    std::time::SystemTime::now()
        .duration_since(std::time::UNIX_EPOCH)
        .unwrap_or_default()
        .as_millis() as i64
}

#[test]
fn db_test_thread_upsert_idempotent() {
    let mut db = GmDatabase::new();

    let thread1 = GmThreadSummary {
        remote_thread_id: "t1".to_string(),
        local_thread_uuid: None,
        display_name: Some("Test".to_string()),
        participants: vec!["+1234567890".to_string()],
        last_message_snippet: Some("Hello".to_string()),
        last_message_timestamp: Some(1000),
        unread_count: 0,
        is_group: false,
        updated_at: 1000,
    };

    db.upsert_thread(thread1.clone()).unwrap();
    assert_eq!(db.get_threads().len(), 1);

    // Same thread, same timestamp - should not duplicate
    db.upsert_thread(thread1.clone()).unwrap();
    assert_eq!(db.get_threads().len(), 1);

    // Same thread, older timestamp - should not update
    let mut older = thread1.clone();
    older.display_name = Some("Older".to_string());
    older.updated_at = 500;
    db.upsert_thread(older).unwrap();
    assert_eq!(db.get_thread("t1").unwrap().display_name, Some("Test".to_string()));

    // Same thread, newer timestamp - should update
    let mut newer = thread1.clone();
    newer.display_name = Some("Newer".to_string());
    newer.updated_at = 2000;
    db.upsert_thread(newer).unwrap();
    assert_eq!(db.get_thread("t1").unwrap().display_name, Some("Newer".to_string()));
}

#[test]
fn db_test_message_upsert_idempotent() {
    let mut db = GmDatabase::new();

    let msg = GmMessage {
        remote_message_id: "m1".to_string(),
        remote_thread_id: "t1".to_string(),
        local_message_uuid: None,
        text: Some("Hello".to_string()),
        timestamp: 1000,
        direction: GmMessageDirection::Incoming,
        status: GmMessageStatus::Sent,
        sender: Some("+1234567890".to_string()),
        is_read: false,
    };

    db.upsert_message(msg.clone()).unwrap();
    let messages = db.get_messages("t1", 10, None);
    assert_eq!(messages.len(), 1);

    // Same message again - should not duplicate
    db.upsert_message(msg.clone()).unwrap();
    let messages = db.get_messages("t1", 10, None);
    assert_eq!(messages.len(), 1);
}

#[test]
fn db_test_outbox_retry_backoff() {
    let mut db = GmDatabase::new();

    let id = db.add_to_outbox("acc1", "t1", "local-1", "Hello").unwrap();

    // First failure
    db.update_outbox_status(
        id,
        GmMessageStatus::Failed { error: "Network".to_string() },
        Some("Network".to_string()),
    )
    .unwrap();

    let items = db.get_pending_outbox_items();
    // Should not be immediately available due to backoff
    assert!(items.is_empty() || items[0].next_retry_at.unwrap() > now_millis());
}
