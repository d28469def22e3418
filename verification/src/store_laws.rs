//! Properties of the message store that hold across operations.

use crate::db::{
    before_bound, cursor_record, due_items, ids_of_thread, index_upserted, is_due, message_merged,
    message_time_key, message_upserted, messages_of, queued_item, retry_delay_secs,
    thread_upserted, without_id, item_with_status, item_given_up,
};
use crate::db::{
    lemma_messages_of_members, attempt_in_range, lemma_position_of_id_bounds, position_of_id, retry_time_in_range, GmDatabase,
};
use crate::keyed::{insert_all, keyed_map, keys_unique, lemma_keyed_push, views, Keyed};
use crate::sync::{messages_upserted_all, threads_upserted_all};
use crate::records::{
    GmError, GmMessage, GmMessageStatus, GmMessageView, GmOutboxItem, GmOutboxItemView, GmSyncCursor, GmSyncCursorView,
    GmThreadIndex, GmThreadSummary, GmThreadSummaryView,
};
use crate::sorting::{lemma_sort_desc, sort_desc, sorted_desc};
use vstd::prelude::*;

verus! {

/// Upserting the same thread twice leaves the threads as one upsert does.
pub proof fn law_thread_upsert_idempotent(
    threads: Map<Seq<char>, GmThreadSummaryView>,
    t: GmThreadSummaryView,
)
    ensures
        thread_upserted(thread_upserted(threads, t), t) == thread_upserted(threads, t),
{
}

/// Of two versions of a thread with different update times, the newer one is
/// kept whatever order they arrive in.
pub proof fn law_thread_newest_wins(
    threads: Map<Seq<char>, GmThreadSummaryView>,
    a: GmThreadSummaryView,
    b: GmThreadSummaryView,
)
    requires
        a.remote_thread_id == b.remote_thread_id,
        a.updated_at != b.updated_at,
    ensures
        thread_upserted(thread_upserted(threads, a), b) == thread_upserted(
            thread_upserted(threads, b),
            a,
        ),
{
    let k = a.remote_thread_id;
    let ab = thread_upserted(thread_upserted(threads, a), b);
    let ba = thread_upserted(thread_upserted(threads, b), a);
    assert(ab =~= ba);
}

/// After an upsert, the thread stored under its id is the newer of the stored
/// and the incoming version, and every other thread is untouched.
pub proof fn law_thread_read_after_upsert(
    threads: Map<Seq<char>, GmThreadSummaryView>,
    t: GmThreadSummaryView,
)
    ensures
        thread_upserted(threads, t).contains_key(t.remote_thread_id),
        thread_upserted(threads, t)[t.remote_thread_id] == if threads.contains_key(
            t.remote_thread_id,
        ) && threads[t.remote_thread_id].updated_at >= t.updated_at {
            threads[t.remote_thread_id]
        } else {
            t
        },
        forall|k: Seq<char>|
            k != t.remote_thread_id ==> (#[trigger] thread_upserted(threads, t).contains_key(k)
                == threads.contains_key(k)) && (threads.contains_key(k) ==> thread_upserted(
                threads,
                t,
            )[k] == threads[k]),
{
}

/// Upserting the same message twice changes nothing beyond the first upsert:
/// the message is not listed twice in its thread.
pub proof fn law_message_upsert_idempotent(
    messages: Map<Seq<char>, GmMessageView>,
    index: Map<Seq<char>, Seq<Seq<char>>>,
    m: GmMessageView,
)
    ensures
        message_upserted(message_upserted(messages, m), m) == message_upserted(messages, m),
        index_upserted(message_upserted(messages, m), index_upserted(messages, index, m), m)
            == index_upserted(messages, index, m),
{
    let k = m.remote_message_id;
    if messages.contains_key(k) {
        let e = messages[k];
        assert(message_merged(message_merged(e, m), m) =~= message_merged(e, m));
    } else {
        assert(message_merged(m, m) =~= m);
    }
    assert(message_upserted(message_upserted(messages, m), m) =~= message_upserted(messages, m));
}

/// The per-thread index lists each stored message once, under its own thread,
/// and lists nothing else.
pub open spec fn index_consistent(
    messages: Map<Seq<char>, GmMessageView>,
    index: Map<Seq<char>, Seq<Seq<char>>>,
) -> bool {
    &&& forall|k: Seq<char>| #[trigger]
        messages.contains_key(k) ==> messages[k].remote_message_id == k
    &&& forall|t: Seq<char>, i: int|
        index.contains_key(t) && 0 <= i < index[t].len() ==> messages.contains_key(
            #[trigger] index[t][i],
        ) && messages[index[t][i]].remote_thread_id == t
    &&& forall|t: Seq<char>| #[trigger] index.contains_key(t) ==> index[t].no_duplicates()
    &&& forall|k: Seq<char>| #[trigger]
        messages.contains_key(k) ==> index.contains_key(messages[k].remote_thread_id)
            && index[messages[k].remote_thread_id].contains(k)
}

/// An empty store's index is consistent.
pub proof fn law_index_consistent_empty()
    ensures
        index_consistent(
            Map::<Seq<char>, GmMessageView>::empty(),
            Map::<Seq<char>, Seq<Seq<char>>>::empty(),
        ),
{
}

/// Upserting a message keeps the per-thread index consistent.
pub proof fn law_index_consistent_preserved(
    messages: Map<Seq<char>, GmMessageView>,
    index: Map<Seq<char>, Seq<Seq<char>>>,
    m: GmMessageView,
)
    requires
        index_consistent(messages, index),
    ensures
        index_consistent(message_upserted(messages, m), index_upserted(messages, index, m)),
{
    let k = m.remote_message_id;
    let t = m.remote_thread_id;
    let mm = message_upserted(messages, m);
    let ix = index_upserted(messages, index, m);
    if messages.contains_key(k) {
        assert forall|t2: Seq<char>, i: int|
            ix.contains_key(t2) && 0 <= i < ix[t2].len() implies mm.contains_key(
            #[trigger] ix[t2][i],
        ) && mm[ix[t2][i]].remote_thread_id == t2 by {
            assert(messages.contains_key(index[t2][i]));
        }
        assert forall|k2: Seq<char>| #[trigger] mm.contains_key(k2) implies ix.contains_key(
            mm[k2].remote_thread_id,
        ) && ix[mm[k2].remote_thread_id].contains(k2) by {
            assert(messages.contains_key(k2));
        }
    } else {
        let old_ids = ids_of_thread(index, t);
        let new_ids = old_ids.push(k);
        assert forall|t2: Seq<char>, i: int|
            ix.contains_key(t2) && 0 <= i < ix[t2].len() implies mm.contains_key(
            #[trigger] ix[t2][i],
        ) && mm[ix[t2][i]].remote_thread_id == t2 by {
            if t2 == t {
                if i < old_ids.len() {
                    assert(ix[t2][i] == index[t2][i]);
                    assert(messages.contains_key(index[t2][i]));
                }
            } else {
                assert(messages.contains_key(index[t2][i]));
            }
        }
        assert forall|t2: Seq<char>| #[trigger] ix.contains_key(t2) implies ix[t2].no_duplicates() by {
            if t2 == t {
                assert forall|i: int, j: int|
                    0 <= i < new_ids.len() && 0 <= j < new_ids.len() && i != j implies new_ids[i]
                    != new_ids[j] by {
                    if i < old_ids.len() && j < old_ids.len() {
                    } else if i < old_ids.len() {
                        assert(messages.contains_key(index[t][i]));
                    } else if j < old_ids.len() {
                        assert(messages.contains_key(index[t][j]));
                    }
                }
            }
        }
        assert forall|k2: Seq<char>| #[trigger] mm.contains_key(k2) implies ix.contains_key(
            mm[k2].remote_thread_id,
        ) && ix[mm[k2].remote_thread_id].contains(k2) by {
            if k2 == k {
                assert(new_ids[new_ids.len() - 1] == k);
            } else {
                assert(messages.contains_key(k2));
                let t2 = messages[k2].remote_thread_id;
                assert(index[t2].contains(k2));
                if t2 == t {
                    let i = choose|i: int| 0 <= i < index[t2].len() && index[t2][i] == k2;
                    assert(new_ids[i] == k2);
                }
            }
        }
    }
}

/// A message listing is ordered newest first, and lists only stored messages
/// of the requested thread that are older than the `before` bound.
pub proof fn law_message_listing(
    messages: Map<Seq<char>, GmMessageView>,
    index: Map<Seq<char>, Seq<Seq<char>>>,
    thread: Seq<char>,
    before: Option<i64>,
)
    requires
        index_consistent(messages, index),
    ensures
        ({
            let all = sort_desc(
                messages_of(ids_of_thread(index, thread), messages, before),
                |m: GmMessageView| message_time_key(m),
            );
            &&& sorted_desc(all, |m: GmMessageView| message_time_key(m))
            &&& forall|i: int|
                0 <= i < all.len() ==> {
                    &&& (#[trigger] all[i]).remote_thread_id == thread
                    &&& before_bound(all[i], before)
                    &&& messages.contains_key(all[i].remote_message_id)
                    &&& messages[all[i].remote_message_id] == all[i]
                }
        }),
{
    broadcast use vstd::seq_lib::group_to_multiset_ensures;

    let key = |m: GmMessageView| message_time_key(m);
    let ids = ids_of_thread(index, thread);
    let listed = messages_of(ids, messages, before);
    let all = sort_desc(listed, key);
    lemma_sort_desc(listed, key);
    assert forall|i: int| 0 <= i < all.len() implies {
        &&& (#[trigger] all[i]).remote_thread_id == thread
        &&& before_bound(all[i], before)
        &&& messages.contains_key(all[i].remote_message_id)
        &&& messages[all[i].remote_message_id] == all[i]
    } by {
        let x = all[i];
        assert(all.contains(x));
        assert(all.to_multiset().count(x) > 0);
        assert(listed.to_multiset().count(x) > 0);
        assert(listed.contains(x));
        lemma_messages_of_members(ids, messages, before, x);
        let j = choose|j: int|
            0 <= j < ids.len() && #[trigger] ids[j] == ids[j] && messages.contains_key(ids[j])
                && messages[ids[j]] == x;
        assert(index.contains_key(thread));
        assert(messages.contains_key(index[thread][j]));
    }
}

/// A failed item is not due again before its backoff delay has passed.
pub proof fn law_failed_item_waits(
    item: GmOutboxItemView,
    status: GmMessageStatus,
    error: Option<Seq<char>>,
    now: i64,
    later: i64,
)
    requires
        status is Failed,
        item.attempts < u32::MAX,
        now + retry_delay_secs((item.attempts + 1) as u32) * 1000 <= i64::MAX,
        later < now + retry_delay_secs((item.attempts + 1) as u32) * 1000,
    ensures
        !is_due(item_with_status(item, status, error, now), later),
{
}

/// Retry delays never shrink as attempts add up, start at ten seconds and
/// never exceed five minutes.
pub proof fn law_retry_delay_bounds(a: u32, b: u32)
    requires
        1 <= a <= b,
    ensures
        10 <= retry_delay_secs(a) <= retry_delay_secs(b) <= 300,
        retry_delay_secs(1) == 10,
{
}

/// A newly queued item has an id that no earlier item has, as long as all
/// earlier ids are below the next id.
pub proof fn law_outbox_ids_fresh(
    items: Seq<GmOutboxItemView>,
    next: i64,
    account_id: Seq<char>,
    remote_thread_id: Seq<char>,
    local_message_uuid: Seq<char>,
    text: Seq<char>,
    now: i64,
)
    requires
        next < i64::MAX,
        forall|i: int| 0 <= i < items.len() ==> (#[trigger] items[i]).id < next,
    ensures
        ({
            let after = items.push(
                queued_item(next, account_id, remote_thread_id, local_message_uuid, text, now),
            );
            &&& forall|i: int| 0 <= i < after.len() ==> (#[trigger] after[i]).id < next + 1
            &&& forall|i: int| 0 <= i < items.len() ==> (#[trigger] items[i]).id != next
        }),
{
    let after = items.push(
        queued_item(next, account_id, remote_thread_id, local_message_uuid, text, now),
    );
    assert forall|i: int| 0 <= i < after.len() implies (#[trigger] after[i]).id < next + 1 by {
        if i < items.len() {
            assert(after[i] == items[i]);
        }
    }
}

/// Removing an id leaves exactly the items with other ids.
pub proof fn law_remove_from_outbox(items: Seq<GmOutboxItemView>, id: i64, x: GmOutboxItemView)
    ensures
        without_id(items, id).contains(x) <==> items.contains(x) && x.id != id,
    decreases items.len(),
{
    if items.len() > 0 {
        let rest = items.drop_last();
        law_remove_from_outbox(rest, id, x);
        assert(items =~= rest.push(items.last()));
        if items.contains(x) && x != items.last() {
            let i = choose|i: int| 0 <= i < items.len() && items[i] == x;
            assert(rest[i] == x);
        }
        if rest.contains(x) {
            let i = choose|i: int| 0 <= i < rest.len() && rest[i] == x;
            assert(items[i] == x);
        }
        let w = without_id(rest, id);
        if items.last().id != id && without_id(items, id).contains(x) && x != items.last() {
            let i = choose|i: int| 0 <= i < w.push(items.last()).len() && w.push(items.last())[i] == x;
            assert(w[i] == x);
        }
        if items.last().id != id && w.contains(x) {
            let i = choose|i: int| 0 <= i < w.len() && w[i] == x;
            assert(w.push(items.last())[i] == x);
        }
        if items.last().id != id && x == items.last() {
            assert(w.push(items.last())[w.len() as int] == x);
        }
    }
}

/// The items handed out as due at `now` are exactly the queued items that are due then.
pub proof fn law_due_items(items: Seq<GmOutboxItemView>, now: i64, x: GmOutboxItemView)
    ensures
        due_items(items, now).contains(x) <==> items.contains(x) && is_due(x, now),
    decreases items.len(),
{
    if items.len() > 0 {
        let rest = items.drop_last();
        law_due_items(rest, now, x);
        assert(items =~= rest.push(items.last()));
        if items.contains(x) && x != items.last() {
            let i = choose|i: int| 0 <= i < items.len() && items[i] == x;
            assert(rest[i] == x);
        }
        if rest.contains(x) {
            let i = choose|i: int| 0 <= i < rest.len() && rest[i] == x;
            assert(items[i] == x);
        }
        let w = due_items(rest, now);
        if is_due(items.last(), now) && due_items(items, now).contains(x) && x != items.last() {
            let i = choose|i: int| 0 <= i < w.push(items.last()).len() && w.push(items.last())[i] == x;
            assert(w[i] == x);
        }
        if is_due(items.last(), now) && w.contains(x) {
            let i = choose|i: int| 0 <= i < w.len() && w[i] == x;
            assert(w.push(items.last())[i] == x);
        }
        if is_due(items.last(), now) && x == items.last() {
            assert(w.push(items.last())[w.len() as int] == x);
        }
    }
}

/// Reading a thread's cursor gives back the last cursor written for it.
pub proof fn law_cursor_read_after_write(
    cursors: Map<Seq<char>, GmSyncCursorView>,
    thread: Seq<char>,
    cursor: Seq<char>,
    now: i64,
)
    ensures
        cursors.insert(thread, cursor_record(thread, cursor, now)).contains_key(thread),
        cursors.insert(thread, cursor_record(thread, cursor, now))[thread].cursor == cursor,
{
}

/// An upsert adds the thread's id to the stored ids and removes none.
pub proof fn law_thread_upsert_keys(threads: Map<Seq<char>, GmThreadSummaryView>, t: GmThreadSummaryView)
    ensures
        thread_upserted(threads, t).dom() == threads.dom().insert(t.remote_thread_id),
{
    assert(thread_upserted(threads, t).dom() =~= threads.dom().insert(t.remote_thread_id));
}

/// An upsert adds the message's id to the stored ids and removes none.
pub proof fn law_message_upsert_keys(messages: Map<Seq<char>, GmMessageView>, m: GmMessageView)
    ensures
        message_upserted(messages, m).dom() == messages.dom().insert(m.remote_message_id),
{
    assert(message_upserted(messages, m).dom() =~= messages.dom().insert(m.remote_message_id));
}

/// A thread id that none of the upserts since the store was created or
/// cleared (when it holds no thread) carried is not stored.
pub proof fn law_never_stored_thread_absent(ts: Seq<GmThreadSummaryView>, k: Seq<char>)
    requires
        forall|i: int| 0 <= i < ts.len() ==> (#[trigger] ts[i]).remote_thread_id != k,
    ensures
        !threads_upserted_all(Map::empty(), ts).contains_key(k),
    decreases ts.len(),
{
    if ts.len() > 0 {
        let rest = ts.drop_last();
        assert forall|i: int| 0 <= i < rest.len() implies (#[trigger] rest[i]).remote_thread_id != k by {
            assert(rest[i] == ts[i]);
        }
        law_never_stored_thread_absent(rest, k);
        assert(ts.last() == ts[ts.len() - 1]);
    }
}

/// A message id that none of the upserts since the store was created or
/// cleared (when it holds no message) carried is not stored.
pub proof fn law_never_stored_message_absent(ms: Seq<GmMessageView>, k: Seq<char>)
    requires
        forall|i: int| 0 <= i < ms.len() ==> (#[trigger] ms[i]).remote_message_id != k,
    ensures
        !messages_upserted_all(Map::empty(), Map::empty(), ms).0.contains_key(k),
    decreases ms.len(),
{
    if ms.len() > 0 {
        let rest = ms.drop_last();
        assert forall|i: int| 0 <= i < rest.len() implies (#[trigger] rest[i]).remote_message_id != k by {
            assert(rest[i] == ms[i]);
        }
        law_never_stored_message_absent(rest, k);
        assert(ms.last() == ms[ms.len() - 1]);
    }
}

/// Loading the records that a snapshot of a table gave restores that table:
/// inserting records with distinct keys in order gives the map they stand for.
pub proof fn law_reload_snapshot<T: Keyed>(s: Seq<T>)
    requires
        keys_unique(s),
    ensures
        insert_all(Map::<Seq<char>, T::V>::empty(), s) == keyed_map(s),
    decreases s.len(),
{
    if s.len() == 0 {
        assert(keyed_map(s) =~= Map::<Seq<char>, T::V>::empty());
    } else {
        let rest = s.drop_last();
        let v = s.last();
        assert forall|i: int, j: int|
            0 <= i < rest.len() && 0 <= j < rest.len() && #[trigger] rest[i].key_view()
                == #[trigger] rest[j].key_view() implies i == j by {
            assert(rest[i] == s[i] && rest[j] == s[j]);
        }
        law_reload_snapshot(rest);
        assert(!crate::keyed::has_key(rest, v.key_view())) by {
            if crate::keyed::has_key(rest, v.key_view()) {
                let i = choose|i: int| 0 <= i < rest.len() && #[trigger] rest[i].key_view() == v.key_view();
                assert(rest[i] == s[i]);
                assert(s[s.len() - 1].key_view() == v.key_view());
            }
        }
        lemma_keyed_push(rest, v);
        assert(rest.push(v) =~= s);
    }
}

/// An item given up on is not due again at any time before the largest timestamp.
pub proof fn law_given_up_never_due(item: GmOutboxItemView, status: GmMessageStatus, now: i64)
    requires
        status is Failed,
        now < i64::MAX,
    ensures
        !is_due(item_given_up(item, status), now),
{
}

/// Saving a store and loading what was saved into another store gives the
/// second store the same contents: the same threads, messages, per-thread
/// message index, outbox, next outbox id and cursors. What was saved is what
/// the store's snapshots give; the second store holds what `load_all` makes
/// of it.
pub proof fn law_store_round_trip(
    saved: &GmDatabase,
    threads: Seq<GmThreadSummary>,
    messages: Seq<GmMessage>,
    index: Seq<GmThreadIndex>,
    outbox: Seq<GmOutboxItem>,
    next_id: i64,
    cursors: Seq<GmSyncCursor>,
    loaded: &GmDatabase,
)
    requires
        keys_unique(threads) && keyed_map(threads) == saved.threads_view(),
        keys_unique(messages) && keyed_map(messages) == saved.messages_view(),
        keys_unique(index) && keyed_map(index) == saved.thread_index_view(),
        views(outbox) == saved.outbox_view() && next_id == saved.next_id(),
        keys_unique(cursors) && keyed_map(cursors) == saved.cursors_view(),
        loaded.threads_view() == insert_all(Map::<Seq<char>, GmThreadSummaryView>::empty(), threads),
        loaded.messages_view() == insert_all(Map::<Seq<char>, GmMessageView>::empty(), messages),
        loaded.thread_index_view() == insert_all(Map::<Seq<char>, Seq<Seq<char>>>::empty(), index),
        loaded.outbox_view() == views(outbox) && loaded.next_id() == next_id,
        loaded.cursors_view() == insert_all(Map::<Seq<char>, GmSyncCursorView>::empty(), cursors),
    ensures
        loaded.threads_view() == saved.threads_view(),
        loaded.messages_view() == saved.messages_view(),
        loaded.thread_index_view() == saved.thread_index_view(),
        loaded.outbox_view() == saved.outbox_view(),
        loaded.next_id() == saved.next_id(),
        loaded.cursors_view() == saved.cursors_view(),
{
    law_reload_snapshot(threads);
    law_reload_snapshot(messages);
    law_reload_snapshot(index);
    law_reload_snapshot(cursors);
}

/// After an upsert, the message stored under the upserted id carries the
/// incoming status and read flag, and the incoming local id when one is
/// given. A message that was already stored keeps its thread, text, time,
/// direction and sender, and its local id when none is given; a new message
/// is stored as it came.
pub proof fn law_message_upsert_takes_status(messages: Map<Seq<char>, GmMessageView>, m: GmMessageView)
    ensures
        ({
            let after = message_upserted(messages, m);
            let k = m.remote_message_id;
            let stored = after[k];
            &&& after.contains_key(k)
            &&& stored.status == m.status
            &&& stored.is_read == m.is_read
            &&& m.local_message_uuid is Some ==> stored.local_message_uuid == m.local_message_uuid
            &&& messages.contains_key(k) ==> {
                let old = messages[k];
                &&& stored.remote_message_id == old.remote_message_id
                &&& stored.remote_thread_id == old.remote_thread_id
                &&& stored.text == old.text
                &&& stored.timestamp == old.timestamp
                &&& stored.direction == old.direction
                &&& stored.sender == old.sender
                &&& m.local_message_uuid is None ==> stored.local_message_uuid == old.local_message_uuid
            }
            &&& !messages.contains_key(k) ==> stored == m
            &&& forall|j: Seq<char>|
                j != k ==> (#[trigger] after.contains_key(j) <==> messages.contains_key(j))
            &&& forall|j: Seq<char>| j != k && messages.contains_key(j) ==> #[trigger] after[j] == messages[j]
        }),
{
    let after = message_upserted(messages, m);
    let k = m.remote_message_id;
    if messages.contains_key(k) {
        assert(after == messages.insert(k, message_merged(messages[k], m)));
    } else {
        assert(after == messages.insert(k, m));
    }
}

/// Among the items handed out as due at `now`, none is waiting for a retry
/// time after `now`, and each is queued or failed.
pub proof fn law_due_items_retry_time_passed(items: Seq<GmOutboxItemView>, now: i64)
    ensures
        forall|i: int|
            0 <= i < due_items(items, now).len() ==> {
                &&& (#[trigger] due_items(items, now)[i]).status is Queued || due_items(items, now)[i].status is Failed
                &&& due_items(items, now)[i].next_retry_at matches Some(t) ==> t <= now
            },
{
    assert forall|i: int| 0 <= i < due_items(items, now).len() implies {
        &&& (#[trigger] due_items(items, now)[i]).status is Queued || due_items(items, now)[i].status is Failed
        &&& due_items(items, now)[i].next_retry_at matches Some(t) ==> t <= now
    } by {
        let x = due_items(items, now)[i];
        assert(due_items(items, now).contains(x));
        law_due_items(items, now, x);
    }
}

/// Recording a failure of a stored item at time `now` counts one attempt and
/// sets its retry time to `now` plus 10, 30, 60 or 120 seconds after the
/// first to fourth failure and 5 minutes after any later one.
pub proof fn law_failure_backoff(
    before: &GmDatabase,
    after: &GmDatabase,
    id: i64,
    status: GmMessageStatus,
    error: Option<Seq<char>>,
    now: i64,
    r: Result<(), GmError>,
)
    requires
        status is Failed,
        attempt_in_range(before.outbox_view(), id),
        after.status_update_outcome(before, id, status, error, now, r),
        r is Ok,
        position_of_id(before.outbox_view(), id) >= 0,
    ensures
        ({
            let p = position_of_id(before.outbox_view(), id);
            let old = before.outbox_view()[p];
            let new = after.outbox_view()[p];
            &&& new.attempts == old.attempts + 1
            &&& new.status == status
            &&& new.last_error == error
            &&& new.next_retry_at == Some(
                (now + if new.attempts == 1 {
                    10_000int
                } else if new.attempts == 2 {
                    30_000
                } else if new.attempts == 3 {
                    60_000
                } else if new.attempts == 4 {
                    120_000
                } else {
                    300_000
                }) as i64,
            )
            &&& after.outbox_view().len() == before.outbox_view().len()
        }),
{
    lemma_position_of_id_bounds(before.outbox_view(), id);
    let p = position_of_id(before.outbox_view(), id);
    let old = before.outbox_view()[p];
    assert(retry_time_in_range(before.outbox_view(), id, now));
    assert(after.outbox_view() == before.outbox_view().update(p, item_with_status(old, status, error, now)));
    let new = after.outbox_view()[p];
    assert(new == item_with_status(old, status, error, now));
    assert(new.attempts == old.attempts + 1);
}

} // verus!
