use gmessages::models::GMPairingState;
use gmessages::session::{GMSession, GMSessionState};
use gmessages::protocol::{
    check_response_status, classify_response_status, messages_from_webview, parse_u64, threads_from_webview,
    threads_from_webview_at, GmWebViewMessage, GmWebViewThread,
};
use gmessages::records::{GmError, GmMessageDirection, GmMessageStatus};

#[test]
fn test_parse_threads_from_webview() {
    let items = vec![GmWebViewThread {
        id: "thread-1".to_string(),
        name: Some("John Doe".to_string()),
        participants: Some(vec!["+1234567890".to_string()]),
        last_message_text: Some("Hello!".to_string()),
        last_message_time: Some(1704067200000),
        unread_count: Some(2),
        is_group: Some(false),
    }];

    let threads = threads_from_webview(items);
    assert_eq!(threads.len(), 1);
    assert_eq!(threads[0].remote_thread_id, "thread-1");
    assert_eq!(threads[0].display_name, Some("John Doe".to_string()));
    assert_eq!(threads[0].unread_count, 2);
}

#[test]
fn test_parse_messages_from_webview() {
    let items = vec![
        GmWebViewMessage {
            id: "msg-1".to_string(),
            text: Some("Hello!".to_string()),
            timestamp: 1704067200000,
            is_from_me: false,
            sender: Some("+1234567890".to_string()),
            is_read: Some(true),
        },
        GmWebViewMessage {
            id: "msg-2".to_string(),
            text: Some("Hi there!".to_string()),
            timestamp: 1704067260000,
            is_from_me: true,
            sender: None,
            is_read: Some(true),
        },
    ];

    let messages = messages_from_webview("thread-1", items);
    assert_eq!(messages.len(), 2);
    assert_eq!(messages[0].direction, GmMessageDirection::Incoming);
    assert_eq!(messages[1].direction, GmMessageDirection::Outgoing);
}

#[test]
fn webview_thread_defaults() {
    let items = vec![GmWebViewThread {
        id: "t".to_string(),
        name: None,
        participants: None,
        last_message_text: None,
        last_message_time: None,
        unread_count: None,
        is_group: None,
    }];
    let threads = threads_from_webview_at(items, 777);
    assert_eq!(threads[0].updated_at, 777);
    assert_eq!(threads[0].unread_count, 0);
    assert!(!threads[0].is_group);
    assert!(threads[0].participants.is_empty());
    assert_eq!(threads[0].local_thread_uuid, None);
}

#[test]
fn webview_message_defaults() {
    let items = vec![GmWebViewMessage {
        id: "m".to_string(),
        text: None,
        timestamp: 5,
        is_from_me: false,
        sender: None,
        is_read: None,
    }];
    let messages = messages_from_webview("t7", items);
    assert_eq!(messages[0].remote_thread_id, "t7");
    assert!(messages[0].is_read);
    assert!(matches!(messages[0].status, GmMessageStatus::Sent));
    assert_eq!(messages[0].local_message_uuid, None);
}

#[test]
fn parse_u64_follows_str_parse() {
    assert_eq!(parse_u64("120"), Some(120));
    assert_eq!(parse_u64("+7"), Some(7));
    assert_eq!(parse_u64("0"), Some(0));
    assert_eq!(parse_u64("18446744073709551615"), Some(u64::MAX));
    assert_eq!(parse_u64("18446744073709551616"), None);
    assert_eq!(parse_u64(""), None);
    assert_eq!(parse_u64("+"), None);
    assert_eq!(parse_u64("-1"), None);
    assert_eq!(parse_u64("12a"), None);
    assert_eq!(parse_u64(" 1"), None);
    for s in ["5", "+0", "99999", "x", "1.5"] {
        assert_eq!(parse_u64(s), s.parse::<u64>().ok());
    }
}

#[test]
fn response_status_classification() {
    assert!(classify_response_status(200, None).is_ok());
    assert!(classify_response_status(204, None).is_ok());
    assert!(matches!(classify_response_status(401, None), Err(GmError::NotAuthenticated)));
    assert!(matches!(classify_response_status(403, None), Err(GmError::NotAuthenticated)));
    assert!(matches!(
        classify_response_status(429, Some("30")),
        Err(GmError::RateLimited { retry_after_secs: Some(30) })
    ));
    assert!(matches!(
        classify_response_status(429, Some("soon")),
        Err(GmError::RateLimited { retry_after_secs: None })
    ));
    assert!(matches!(
        classify_response_status(429, None),
        Err(GmError::RateLimited { retry_after_secs: None })
    ));
    match classify_response_status(500, None) {
        Err(GmError::NetworkError { message }) => assert_eq!(message, "HTTP error: 500 Internal Server Error"),
        other => panic!("unexpected {:?}", other),
    }
    match classify_response_status(404, None) {
        Err(GmError::NetworkError { message }) => assert_eq!(message, "HTTP error: 404 Not Found"),
        other => panic!("unexpected {:?}", other),
    }
    match classify_response_status(599, None) {
        Err(GmError::NetworkError { message }) => assert_eq!(message, "HTTP error: 599 <unknown status code>"),
        other => panic!("unexpected {:?}", other),
    }
}

#[test]
fn error_texts() {
    assert_eq!(GmError::NotAuthenticated.to_string(), "Not authenticated with Google Messages");
    assert_eq!(GmError::RateLimited { retry_after_secs: Some(30) }.to_string(), "Rate limited, retry after 30 seconds");
    assert_eq!(GmError::RateLimited { retry_after_secs: None }.to_string(), "Rate limited");
    assert_eq!(GmError::NetworkError { message: "down".to_string() }.to_string(), "Network error: down");
    assert_eq!(GmError::InvalidResponse { message: "bad".to_string() }.to_string(), "Invalid response: bad");
    assert_eq!(GmError::DatabaseError { message: "io".to_string() }.to_string(), "Database error: io");
    assert_eq!(GmError::Unknown { message: "?".to_string() }.to_string(), "Unknown error: ?");
}

#[test]
fn response_status_marks_session_expired() {
    let mut state = GMSessionState::new();
    state.install_session(GMSession::new_at("SID=1".to_string(), 0));
    assert!(check_response_status(&mut state, 200, None).is_ok());
    assert_eq!(state.get_pairing_state(), GMPairingState::Paired);
    assert!(matches!(check_response_status(&mut state, 500, None), Err(GmError::NetworkError { .. })));
    assert_eq!(state.get_pairing_state(), GMPairingState::Paired);
    assert!(matches!(check_response_status(&mut state, 429, Some("5")), Err(GmError::RateLimited { retry_after_secs: Some(5) })));
    assert_eq!(state.get_pairing_state(), GMPairingState::Paired);
    assert!(matches!(check_response_status(&mut state, 403, None), Err(GmError::NotAuthenticated)));
    assert_eq!(state.get_pairing_state(), GMPairingState::Expired);
    assert_eq!(state.get_cookies(), Some("SID=1".to_string()));
}
