//! The operations the app exposes: sync control, thread and message
//! listings, sending, diagnostics and mapping upserts, over the session state
//! and the local store that the app holds.

use crate::clock::current_timestamp_millis;
use crate::ids::{lemma_uuid_v4_text_shape, new_uuid_v4_text, uuid_text, uuid_v4_bytes};
use crate::local_db::{message_listing, GMLocalDb};
use crate::models::{
    GMDiagnostics, GMMessage, GMMessageDirection, GMMessageStatus, GMOutboxItem, GMPairingState,
    GMSendResult, GMThread, GMThreadSummary,
};
use crate::session::GMSessionState;
use crate::text::{concat_str, owned, split_on, split_on_comma};
use vstd::prelude::*;
use vstd::string::*;

verus! {

/// Text returned when an operation needs a paired session.
pub open spec fn not_paired_text() -> Seq<char> {
    "Not paired with Google Messages"@
}

/// Triggers a manual sync: refused unless paired.
pub fn gm_sync_now(session: &GMSessionState) -> (r: Result<(), String>)
    ensures
        session.pairing_state() == GMPairingState::Paired ==> r is Ok,
        session.pairing_state() != GMPairingState::Paired ==> (r matches Err(e) && e@
            == not_paired_text()),
{
    if !session.is_paired() {
        return Err(owned("Not paired with Google Messages"));
    }
    Ok(())
}

/// Logs out: drops the held session (not paired) and empties the local
/// store. Deleting the stored session file is the caller's part and comes
/// first; when it fails, the caller reports that instead of calling this.
pub fn gm_logout(session: &mut GMSessionState, db: &mut GMLocalDb) -> (r: Result<(), String>)
    ensures
        r is Ok,
        final(session).session() is None,
        final(session).pairing_state() == GMPairingState::NotPaired,
        final(db).wf(),
        final(db).threads_view() == Map::<Seq<char>, GMThread>::empty(),
        final(db).messages_view() == Map::<Seq<char>, GMMessage>::empty(),
        final(db).outbox_view() == Seq::<GMOutboxItem>::empty(),
        final(db).next_local_id() == 1,
        final(db).last_sync() is None,
{
    session.logout();
    db.clear();
    Ok(())
}

/// Requests the background sync loop to start (accepted; the loop is run by the app).
pub fn gm_start_sync_loop() -> (r: Result<(), String>)
    ensures
        r is Ok,
{
    Ok(())
}

/// Requests the background sync loop to stop (accepted).
pub fn gm_stop_sync_loop() -> (r: Result<(), String>)
    ensures
        r is Ok,
{
    Ok(())
}

/// The participants text of a mapping split at commas (none when absent).
pub open spec fn participants_of(t: GMThread) -> Seq<Seq<char>> {
    match t.participants {
        Some(p) => split_on(p@, ','),
        None => Seq::empty(),
    }
}

/// `s` summarizes mapping `t` whose newest messages are `newest` (at most one):
/// the last message's text and time (the mapping's update time when there is
/// none), no unread count, and the participants split at commas.
pub open spec fn summarizes(s: GMThreadSummary, t: GMThread, newest: Seq<GMMessage>) -> bool {
    &&& s.remote_thread_id == t.remote_thread_id
    &&& s.display_name == t.display_name
    &&& s.last_message_text == if newest.len() > 0 {
        newest[0].text
    } else {
        None
    }
    &&& s.last_message_timestamp == if newest.len() > 0 {
        newest[0].timestamp
    } else {
        t.updated_at
    }
    &&& s.unread_count == 0
    &&& s.is_group == t.is_group
    &&& s.participants.deep_view() == participants_of(t)
}

/// All conversations, in the store's order, each with its last message.
pub fn gm_list_threads(db: &GMLocalDb) -> (r: Result<Vec<GMThreadSummary>, String>)
    ensures
        r matches Ok(v) && v@.len() == db.thread_order().len() && forall|i: int|
            0 <= i < v@.len() ==> summarizes(
                #[trigger] v@[i],
                db.thread_order()[i],
                message_listing(db.message_order(), db.thread_order()[i].remote_thread_id@, 1, None),
            ),
{
    let threads = db.list_threads();
    let mut out: Vec<GMThreadSummary> = Vec::new();
    let mut i: usize = 0;
    while i < threads.len()
        invariant
            i <= threads@.len(),
            threads@ == db.thread_order(),
            out@.len() == i,
            forall|j: int|
                0 <= j < i ==> summarizes(
                    #[trigger] out@[j],
                    db.thread_order()[j],
                    message_listing(db.message_order(), db.thread_order()[j].remote_thread_id@, 1, None),
                ),
        decreases threads@.len() - i,
    {
        let t = &threads[i];
        let newest = db.get_messages_for_thread(t.remote_thread_id.as_str(), 1, None);
        let (last_text, last_time) = if newest.len() > 0 {
            (crate::text::clone_opt_string(&newest[0].text), newest[0].timestamp)
        } else {
            (None, t.updated_at)
        };
        let participants = match &t.participants {
            Some(p) => split_on_comma(p.as_str()),
            None => Vec::new(),
        };
        let summary = GMThreadSummary {
            remote_thread_id: t.remote_thread_id.clone(),
            display_name: crate::text::clone_opt_string(&t.display_name),
            last_message_text: last_text,
            last_message_timestamp: last_time,
            unread_count: 0,
            is_group: t.is_group,
            participants,
        };
        proof {
            assert(summary.participants.deep_view() =~= participants_of(*t));
        }
        out.push(summary);
        i = i + 1;
    }
    Ok(out)
}

/// Messages of a thread, newest first, at most `limit` (a negative limit
/// converts to a huge one); with `cursor`, only those strictly older than it.
pub fn gm_list_messages(db: &GMLocalDb, remote_thread_id: String, limit: i32, cursor: Option<i64>) -> (r:
    Result<Vec<GMMessage>, String>)
    ensures
        r matches Ok(v) && v@ == message_listing(
            db.message_order(),
            remote_thread_id@,
            limit as usize,
            cursor,
        ),
{
    Ok(db.get_messages_for_thread(remote_thread_id.as_str(), limit as usize, cursor))
}

/// Sends a text by queueing it in the outbox, at time `now`, under local
/// message id "gm-" followed by `uuid_text`; refused (as a failed result)
/// unless paired.
pub fn gm_send_text_with(
    session: &GMSessionState,
    db: &mut GMLocalDb,
    remote_thread_id: String,
    text: String,
    uuid_text: String,
    now: i64,
) -> (r: Result<GMSendResult, String>)
    requires
        old(db).next_local_id() < i64::MAX,
    ensures
        session.pairing_state() != GMPairingState::Paired ==> {
            &&& r matches Ok(GMSendResult::Failed { error }) && error@ == not_paired_text()
            &&& *final(db) == *old(db)
        },
        session.pairing_state() == GMPairingState::Paired ==> {
            &&& r == Ok::<GMSendResult, String>(
                GMSendResult::Queued { outbox_id: old(db).next_local_id() },
            )
            &&& final(db).next_local_id() == old(db).next_local_id() + 1
            &&& final(db).outbox_view().len() == old(db).outbox_view().len() + 1
            &&& final(db).outbox_view().drop_last() == old(db).outbox_view()
            &&& ({
                let item = final(db).outbox_view().last();
                &&& item.id == Some(old(db).next_local_id())
                &&& item.remote_thread_id == remote_thread_id
                &&& item.local_message_guid@ == "gm-"@ + uuid_text@
                &&& item.text == text
                &&& item.status == GMMessageStatus::Queued
                &&& item.attempts == 0
                &&& item.next_retry_at is None
                &&& item.last_error is None
                &&& item.created_at == now
            })
            &&& final(db).threads_view() == old(db).threads_view()
            &&& final(db).messages_view() == old(db).messages_view()
        },
{
    if !session.is_paired() {
        return Ok(GMSendResult::Failed { error: owned("Not paired with Google Messages") });
    }
    let local_guid = concat_str("gm-", uuid_text.as_str());
    let item = GMOutboxItem::new_at(remote_thread_id, local_guid, text, now);
    let added = db.add_to_outbox(item);
    let outbox_id = match added.id {
        Some(id) => id,
        None => 0,
    };
    proof {
        assert(final(db).outbox_view().drop_last() =~= old(db).outbox_view());
    }
    Ok(GMSendResult::Queued { outbox_id })
}

/// Sends a text by queueing it in the outbox under a fresh local message id
/// ("gm-" and a random UUID); refused (as a failed result) unless paired. When
/// the operating system gives no random bytes for the id, nothing is queued
/// and the error is returned.
pub fn gm_send_text(
    session: &GMSessionState,
    db: &mut GMLocalDb,
    remote_thread_id: String,
    text: String,
) -> (r: Result<GMSendResult, String>)
    requires
        old(db).next_local_id() < i64::MAX,
    ensures
        session.pairing_state() != GMPairingState::Paired ==> {
            &&& r matches Ok(GMSendResult::Failed { error }) && error@ == not_paired_text()
            &&& *final(db) == *old(db)
        },
        session.pairing_state() == GMPairingState::Paired && r is Err ==> {
            &&& r matches Err(e) && e@.take(31) == "Failed to generate message id: "@
            &&& *final(db) == *old(db)
        },
        session.pairing_state() == GMPairingState::Paired && r is Ok ==> {
            &&& r == Ok::<GMSendResult, String>(
                GMSendResult::Queued { outbox_id: old(db).next_local_id() },
            )
            &&& final(db).next_local_id() == old(db).next_local_id() + 1
            &&& final(db).outbox_view().drop_last() == old(db).outbox_view()
            &&& final(db).outbox_view().len() == old(db).outbox_view().len() + 1
            &&& ({
                let item = final(db).outbox_view().last();
                &&& item.id == Some(old(db).next_local_id())
                &&& item.remote_thread_id == remote_thread_id
                &&& exists|b: Seq<u8>|
                    b.len() == 16 && item.local_message_guid@ == "gm-"@ + #[trigger] uuid_text(
                        uuid_v4_bytes(b),
                    )
                &&& item.local_message_guid@.len() == 39
                &&& item.text == text
                &&& item.status == GMMessageStatus::Queued
                &&& item.attempts == 0
            })
            &&& final(db).threads_view() == old(db).threads_view()
            &&& final(db).messages_view() == old(db).messages_view()
        },
{
    if !session.is_paired() {
        return Ok(GMSendResult::Failed { error: owned("Not paired with Google Messages") });
    }
    let mut random_bytes: Vec<u8> = vec![0u8; 16];
    let id_text = match new_uuid_v4_text(&mut random_bytes) {
        Ok(t) => t,
        Err(e) => {
            let message = concat_str("Failed to generate message id: ", e.as_str());
            proof {
                reveal_strlit("Failed to generate message id: ");
                assert(message@.take(31) =~= "Failed to generate message id: "@);
            }
            return Err(message);
        },
    };
    let now = current_timestamp_millis();
    let ghost b = random_bytes@;
    proof {
        lemma_uuid_v4_text_shape(b);
        reveal_strlit("gm-");
    }
    let r = gm_send_text_with(session, db, remote_thread_id, text, id_text, now);
    proof {
        let item = final(db).outbox_view().last();
        assert(item.local_message_guid@ == "gm-"@ + uuid_text(uuid_v4_bytes(b)));
    }
    r
}

/// Diagnostics of the connection: pairing state, last sync, outbox size and
/// counts of mappings (counts are converted to `i32` as `as` does).
pub fn gm_get_diagnostics(session: &GMSessionState, db: &GMLocalDb) -> (r: Result<GMDiagnostics, String>)
    ensures
        r matches Ok(d) && d.pairing_state == session.pairing_state() && d.last_sync_time
            == db.last_sync() && d.outbox_size == db.outbox_view().len() as i32 && d.last_error is None
            && d.thread_count == db.thread_order().len() as i32 && d.message_count
            == db.message_order().len() as i32,
{
    Ok(
        GMDiagnostics {
            pairing_state: session.get_pairing_state(),
            last_sync_time: db.last_sync_time(),
            outbox_size: db.outbox_size() as i32,
            last_error: None,
            thread_count: db.thread_count() as i32,
            message_count: db.message_count() as i32,
        },
    )
}

/// Upserts a thread mapping updated at `now` with the given details and
/// returns what is stored.
pub fn gm_upsert_thread_at(
    db: &mut GMLocalDb,
    remote_thread_id: String,
    display_name: Option<String>,
    participants: Option<String>,
    is_group: bool,
    now: i64,
) -> (r: Result<GMThread, String>)
    requires
        old(db).wf(),
        old(db).next_local_id() < i64::MAX,
    ensures
        final(db).wf(),
        r matches Ok(t) && {
            let k = remote_thread_id@;
            &&& t.remote_thread_id == remote_thread_id
            &&& t.display_name == display_name
            &&& t.participants == participants
            &&& t.is_group == is_group
            &&& t.updated_at == now
            &&& t.local_chat_guid is None
            &&& t.cursor is None
            &&& t.id == if old(db).threads_view().contains_key(k) {
                old(db).threads_view()[k].id
            } else {
                Some(old(db).next_local_id())
            }
            &&& final(db).threads_view() == old(db).threads_view().insert(k, t)
            &&& final(db).next_local_id() as int == if old(db).threads_view().contains_key(k) {
                old(db).next_local_id() as int
            } else {
                old(db).next_local_id() + 1
            }
        },
        final(db).messages_view() == old(db).messages_view(),
        final(db).outbox_view() == old(db).outbox_view(),
{
    let mut thread = GMThread::new_at(remote_thread_id, now);
    thread.display_name = display_name;
    thread.participants = participants;
    thread.is_group = is_group;
    Ok(db.upsert_thread(thread))
}

/// Upserts a thread mapping updated now with the given details and returns
/// what is stored.
pub fn gm_upsert_thread(
    db: &mut GMLocalDb,
    remote_thread_id: String,
    display_name: Option<String>,
    participants: Option<String>,
    is_group: bool,
) -> (r: Result<GMThread, String>)
    requires
        old(db).wf(),
        old(db).next_local_id() < i64::MAX,
    ensures
        final(db).wf(),
        r matches Ok(t) && {
            let k = remote_thread_id@;
            &&& t.remote_thread_id == remote_thread_id
            &&& t.display_name == display_name
            &&& t.participants == participants
            &&& t.is_group == is_group
            &&& t.local_chat_guid is None
            &&& t.cursor is None
            &&& t.id == if old(db).threads_view().contains_key(k) {
                old(db).threads_view()[k].id
            } else {
                Some(old(db).next_local_id())
            }
            &&& final(db).threads_view() == old(db).threads_view().insert(k, t)
            &&& final(db).next_local_id() as int == if old(db).threads_view().contains_key(k) {
                old(db).next_local_id() as int
            } else {
                old(db).next_local_id() + 1
            }
        },
        final(db).messages_view() == old(db).messages_view(),
        final(db).outbox_view() == old(db).outbox_view(),
{
    gm_upsert_thread_at(db, remote_thread_id, display_name, participants, is_group, current_timestamp_millis())
}

/// Upserts a sent message mapping with the given details and returns what is stored.
pub fn gm_upsert_message(
    db: &mut GMLocalDb,
    remote_message_id: String,
    remote_thread_id: String,
    text: Option<String>,
    timestamp: i64,
    is_outgoing: bool,
) -> (r: Result<GMMessage, String>)
    requires
        old(db).wf(),
        old(db).next_local_id() < i64::MAX,
    ensures
        final(db).wf(),
        r matches Ok(m) && {
            let k = remote_message_id@;
            &&& m.remote_message_id == remote_message_id
            &&& m.remote_thread_id == remote_thread_id
            &&& m.text == text
            &&& m.timestamp == timestamp
            &&& m.direction == if is_outgoing {
                GMMessageDirection::Outgoing
            } else {
                GMMessageDirection::Incoming
            }
            &&& m.status == GMMessageStatus::Sent
            &&& m.local_message_guid is None
            &&& m.id == if old(db).messages_view().contains_key(k) {
                old(db).messages_view()[k].id
            } else {
                Some(old(db).next_local_id())
            }
            &&& final(db).messages_view() == old(db).messages_view().insert(k, m)
            &&& final(db).next_local_id() as int == if old(db).messages_view().contains_key(k) {
                old(db).next_local_id() as int
            } else {
                old(db).next_local_id() + 1
            }
        },
        final(db).threads_view() == old(db).threads_view(),
        final(db).outbox_view() == old(db).outbox_view(),
{
    let direction = if is_outgoing {
        GMMessageDirection::Outgoing
    } else {
        GMMessageDirection::Incoming
    };
    let mut message = GMMessage::new(remote_message_id, remote_thread_id, direction);
    message.text = text;
    message.timestamp = timestamp;
    Ok(db.upsert_message(message))
}

/// Links a thread mapping to a local chat.
pub fn gm_link_thread_to_chat(db: &mut GMLocalDb, remote_thread_id: String, local_chat_guid: String) -> (r:
    Result<(), String>)
    requires
        old(db).wf(),
    ensures
        final(db).wf(),
        old(db).threads_view().contains_key(remote_thread_id@) ==> {
            &&& r is Ok
            &&& final(db).threads_view() == old(db).threads_view().insert(
                remote_thread_id@,
                GMThread {
                    local_chat_guid: Some(local_chat_guid),
                    ..old(db).threads_view()[remote_thread_id@]
                },
            )
        },
        !old(db).threads_view().contains_key(remote_thread_id@) ==> {
            &&& r matches Err(e) && e@ == "Thread not found: "@ + remote_thread_id@
            &&& final(db).threads_view() == old(db).threads_view()
        },
        final(db).messages_view() == old(db).messages_view(),
        final(db).outbox_view() == old(db).outbox_view(),
{
    if db.link_thread_to_chat(remote_thread_id.as_str(), local_chat_guid) {
        Ok(())
    } else {
        Err(concat_str("Thread not found: ", remote_thread_id.as_str()))
    }
}

/// Links a message mapping to a local message.
pub fn gm_link_message_to_local(
    db: &mut GMLocalDb,
    remote_message_id: String,
    local_message_guid: String,
) -> (r: Result<(), String>)
    requires
        old(db).wf(),
    ensures
        final(db).wf(),
        old(db).messages_view().contains_key(remote_message_id@) ==> {
            &&& r is Ok
            &&& final(db).messages_view() == old(db).messages_view().insert(
                remote_message_id@,
                GMMessage {
                    local_message_guid: Some(local_message_guid),
                    ..old(db).messages_view()[remote_message_id@]
                },
            )
        },
        !old(db).messages_view().contains_key(remote_message_id@) ==> {
            &&& r matches Err(e) && e@ == "Message not found: "@ + remote_message_id@
            &&& final(db).messages_view() == old(db).messages_view()
        },
        final(db).threads_view() == old(db).threads_view(),
        final(db).outbox_view() == old(db).outbox_view(),
{
    if db.link_message_to_local(remote_message_id.as_str(), local_message_guid) {
        Ok(())
    } else {
        Err(concat_str("Message not found: ", remote_message_id.as_str()))
    }
}

} // verus!
