use gmessages::models::{GMMessage, GMMessageDirection, GMOutboxItem, GMThread};

#[test]
fn models_test_outbox_retry_backoff() {
    let mut item = GMOutboxItem::new(
        "thread1".to_string(),
        "msg1".to_string(),
        "Hello".to_string(),
    );

    // First retry: 5 seconds
    item.attempts = 0;
    let retry1 = item.calculate_next_retry(5);
    assert!(retry1.is_some());

    // Second retry: 10 seconds
    item.attempts = 1;
    let retry2 = item.calculate_next_retry(5);
    assert!(retry2.is_some());

    // Should eventually return None when max attempts exceeded
    item.attempts = 5;
    let retry_max = item.calculate_next_retry(5);
    assert!(retry_max.is_none());
}

#[test]
fn test_gm_thread_creation() {
    let thread = GMThread::new("remote123".to_string());
    assert_eq!(thread.remote_thread_id, "remote123");
    assert!(thread.id.is_none());
    assert!(thread.local_chat_guid.is_none());
}

#[test]
fn test_gm_message_creation() {
    let msg = GMMessage::new(
        "msg123".to_string(),
        "thread123".to_string(),
        GMMessageDirection::Outgoing,
    );
    assert_eq!(msg.remote_message_id, "msg123");
    assert_eq!(msg.remote_thread_id, "thread123");
    assert_eq!(msg.direction, GMMessageDirection::Outgoing);
}
