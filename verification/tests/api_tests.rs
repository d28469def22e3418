use gmessages::api::{
    gm_get_diagnostics, gm_link_message_to_local, gm_link_thread_to_chat, gm_list_messages,
    gm_list_threads, gm_logout, gm_send_text, gm_send_text_with, gm_sync_now, gm_upsert_message,
    gm_upsert_thread, gm_upsert_thread_at,
};
use gmessages::local_db::GMLocalDb;
use gmessages::models::{GMMessageStatus, GMPairingState, GMSendResult};
use gmessages::session::{GMSession, GMSessionState};

fn paired() -> GMSessionState {
    let mut s = GMSessionState::new();
    s.install_session(GMSession::new_at("SID=abc".to_string(), 1000));
    s
}

#[test]
fn mod_test_thread_upsert_idempotent() {
    let mut db = GMLocalDb::new();

    let result1 = gm_upsert_thread(&mut db, "thread123".to_string(), Some("Test".to_string()), None, false)
        .unwrap();
    let result2 = gm_upsert_thread(
        &mut db,
        "thread123".to_string(),
        Some("Updated".to_string()),
        None,
        false,
    )
    .unwrap();

    assert_eq!(result1.id, result2.id);
    assert_eq!(result2.display_name, Some("Updated".to_string()));
}

#[test]
fn mod_test_message_upsert_idempotent() {
    let mut db = GMLocalDb::new();

    let result1 = gm_upsert_message(
        &mut db,
        "msg123".to_string(),
        "thread123".to_string(),
        Some("Hello".to_string()),
        1000,
        false,
    )
    .unwrap();
    let result2 = gm_upsert_message(
        &mut db,
        "msg123".to_string(),
        "thread123".to_string(),
        Some("Updated".to_string()),
        1000,
        false,
    )
    .unwrap();

    assert_eq!(result1.id, result2.id);
    assert_eq!(result2.text, Some("Updated".to_string()));
}

#[test]
fn upserts_number_new_mappings_from_one() {
    let mut db = GMLocalDb::new();
    let t = gm_upsert_thread_at(&mut db, "t1".to_string(), None, None, true, 42).unwrap();
    assert_eq!(t.id, Some(1));
    assert_eq!(t.updated_at, 42);
    assert!(t.is_group);
    let m = gm_upsert_message(&mut db, "m1".to_string(), "t1".to_string(), None, 5, true).unwrap();
    assert_eq!(m.id, Some(2));
    assert_eq!(m.status, GMMessageStatus::Sent);
    let t2 = gm_upsert_thread_at(&mut db, "t2".to_string(), None, None, false, 43).unwrap();
    assert_eq!(t2.id, Some(3));
    assert_eq!(db.thread_count(), 2);
    assert_eq!(db.message_count(), 1);
}

#[test]
fn send_text_refused_unless_paired() {
    let session = GMSessionState::new();
    let mut db = GMLocalDb::new();
    let r = gm_send_text(&session, &mut db, "t1".to_string(), "hi".to_string()).unwrap();
    match r {
        GMSendResult::Failed { error } => assert_eq!(error, "Not paired with Google Messages"),
        other => panic!("unexpected {:?}", other),
    }
    assert_eq!(db.outbox_size(), 0);
}

#[test]
fn send_text_queues_under_gm_uuid() {
    let session = paired();
    let mut db = GMLocalDb::new();
    let r = gm_send_text(&session, &mut db, "t1".to_string(), "hi".to_string()).unwrap();
    match r {
        GMSendResult::Queued { outbox_id } => assert_eq!(outbox_id, 1),
        other => panic!("unexpected {:?}", other),
    }
    let data = db.to_data();
    assert_eq!(data.outbox.len(), 1);
    let item = &data.outbox[0];
    assert!(item.local_message_guid.starts_with("gm-"));
    assert_eq!(item.local_message_guid.len(), 39);
    let id: Vec<char> = item.local_message_guid[3..].chars().collect();
    assert_eq!(id[14], '4');
    for (i, c) in id.iter().enumerate() {
        if [8, 13, 18, 23].contains(&i) {
            assert_eq!(*c, '-');
        } else {
            assert!(c.is_ascii_hexdigit() && !c.is_ascii_uppercase());
        }
    }
    assert!(matches!(id[19], '8' | '9' | 'a' | 'b'));
    assert_eq!(item.text, "hi");
    assert_eq!(item.status, GMMessageStatus::Queued);
}

#[test]
fn send_text_with_given_uuid_and_time() {
    let session = paired();
    let mut db = GMLocalDb::new();
    let r = gm_send_text_with(&session, &mut db, "t9".to_string(), "yo".to_string(), "abc".to_string(), 77)
        .unwrap();
    match r {
        GMSendResult::Queued { outbox_id } => assert_eq!(outbox_id, 1),
        other => panic!("unexpected {:?}", other),
    }
    let data = db.to_data();
    assert_eq!(data.outbox[0].local_message_guid, "gm-abc");
    assert_eq!(data.outbox[0].created_at, 77);
    assert_eq!(data.next_id, 2);
}

#[test]
fn sync_now_needs_pairing() {
    assert_eq!(gm_sync_now(&GMSessionState::new()), Err("Not paired with Google Messages".to_string()));
    assert_eq!(gm_sync_now(&paired()), Ok(()));
}

#[test]
fn list_threads_summarizes_newest_message() {
    let mut db = GMLocalDb::new();
    gm_upsert_thread_at(&mut db, "t1".to_string(), Some("Ann".to_string()), Some("+1,+2".to_string()), true, 50)
        .unwrap();
    gm_upsert_thread_at(&mut db, "t2".to_string(), None, None, false, 60).unwrap();
    gm_upsert_message(&mut db, "m1".to_string(), "t1".to_string(), Some("old".to_string()), 100, false).unwrap();
    gm_upsert_message(&mut db, "m2".to_string(), "t1".to_string(), Some("new".to_string()), 200, true).unwrap();
    let list = gm_list_threads(&db).unwrap();
    assert_eq!(list.len(), 2);
    assert_eq!(list[0].remote_thread_id, "t1");
    assert_eq!(list[0].last_message_text, Some("new".to_string()));
    assert_eq!(list[0].last_message_timestamp, 200);
    assert_eq!(list[0].participants, vec!["+1".to_string(), "+2".to_string()]);
    assert_eq!(list[0].unread_count, 0);
    assert_eq!(list[1].last_message_text, None);
    assert_eq!(list[1].last_message_timestamp, 60);
    assert!(list[1].participants.is_empty());
}

#[test]
fn list_messages_newest_first_with_limit_and_cursor() {
    let mut db = GMLocalDb::new();
    for (id, ts) in [("a", 10), ("b", 30), ("c", 20), ("d", 40)] {
        gm_upsert_message(&mut db, id.to_string(), "t".to_string(), None, ts, false).unwrap();
    }
    gm_upsert_message(&mut db, "x".to_string(), "other".to_string(), None, 99, false).unwrap();
    let all = gm_list_messages(&db, "t".to_string(), 10, None).unwrap();
    let ids: Vec<&str> = all.iter().map(|m| m.remote_message_id.as_str()).collect();
    assert_eq!(ids, vec!["d", "b", "c", "a"]);
    let two = gm_list_messages(&db, "t".to_string(), 2, None).unwrap();
    assert_eq!(two.len(), 2);
    assert_eq!(two[1].remote_message_id, "b");
    let older = gm_list_messages(&db, "t".to_string(), 10, Some(30)).unwrap();
    let ids: Vec<&str> = older.iter().map(|m| m.remote_message_id.as_str()).collect();
    assert_eq!(ids, vec!["c", "a"]);
}

#[test]
fn links_report_missing_mappings() {
    let mut db = GMLocalDb::new();
    assert_eq!(
        gm_link_thread_to_chat(&mut db, "nope".to_string(), "chat".to_string()),
        Err("Thread not found: nope".to_string())
    );
    assert_eq!(
        gm_link_message_to_local(&mut db, "nada".to_string(), "loc".to_string()),
        Err("Message not found: nada".to_string())
    );
    gm_upsert_thread_at(&mut db, "t1".to_string(), None, None, false, 1).unwrap();
    gm_upsert_message(&mut db, "m1".to_string(), "t1".to_string(), None, 1, false).unwrap();
    assert_eq!(gm_link_thread_to_chat(&mut db, "t1".to_string(), "chat".to_string()), Ok(()));
    assert_eq!(gm_link_message_to_local(&mut db, "m1".to_string(), "loc".to_string()), Ok(()));
    let data = db.to_data();
    assert_eq!(data.threads[0].local_chat_guid, Some("chat".to_string()));
    assert_eq!(data.messages[0].local_message_guid, Some("loc".to_string()));
}

#[test]
fn diagnostics_and_logout() {
    let mut session = paired();
    let mut db = GMLocalDb::new();
    gm_upsert_thread_at(&mut db, "t1".to_string(), None, None, false, 1).unwrap();
    gm_send_text_with(&session, &mut db, "t1".to_string(), "x".to_string(), "u".to_string(), 5).unwrap();
    db.set_last_sync_time(Some(123));
    let d = gm_get_diagnostics(&session, &db).unwrap();
    assert_eq!(d.pairing_state, GMPairingState::Paired);
    assert_eq!(d.last_sync_time, Some(123));
    assert_eq!(d.outbox_size, 1);
    assert_eq!(d.thread_count, 1);
    assert_eq!(d.message_count, 0);
    assert_eq!(d.last_error, None);

    assert_eq!(gm_logout(&mut session, &mut db), Ok(()));
    assert!(!session.has_session());
    assert_eq!(session.get_pairing_state(), GMPairingState::NotPaired);
    assert_eq!(db.thread_count(), 0);
    assert_eq!(db.outbox_size(), 0);
    assert_eq!(db.last_sync_time(), None);
    assert_eq!(db.next_id(), 1);
}
