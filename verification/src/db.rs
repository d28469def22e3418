//! The message store: threads, messages, the outbox queue and sync cursors,
//! with idempotent upserts. Which parts changed since they were last written
//! out is tracked, so that the caller can persist exactly those parts.

use crate::clock::current_timestamp_millis;
use crate::keyed::{
    collect_keyed, duplicate_all, find_key, has_key, insert_all, key_index, keyed_map, keys_unique,
    lemma_keyed_empty, lemma_keyed_lookup, lemma_keyed_same, Keyed, lemma_keyed_push, lemma_keyed_update, put_keyed, views,
};
use crate::records::{
    GmError, GmMessage, GmMessageStatus, GmMessageView, GmOutboxItem, GmOutboxItemView,
    GmSyncCursor, GmSyncCursorView, GmThreadIndex, GmThreadSummary, GmThreadSummaryView,
};
use crate::sorting::{lemma_sort_desc, sort_desc, sort_desc_exec, SortKey};
use crate::text::{concat_str, decimal_int, owned, with_decimal_suffix};
use vstd::prelude::*;

verus! {

/// Which parts of the store changed since they were last handed out for saving.
#[derive(Clone, Copy, Debug, PartialEq, Eq, Structural)]
pub struct GmPendingWrites {
    pub threads: bool,
    pub messages: bool,
    pub outbox: bool,
    pub cursors: bool,
}

/// Contents read back from storage; `None` for a part that was not found.
pub struct GmStoredData {
    pub threads: Option<Vec<GmThreadSummary>>,
    pub messages: Option<(Vec<GmMessage>, Vec<GmThreadIndex>)>,
    pub outbox: Option<(Vec<GmOutboxItem>, i64)>,
    pub cursors: Option<Vec<GmSyncCursor>>,
}

/// In-memory store for Google Messages data.
pub struct GmDatabase {
    threads: Vec<GmThreadSummary>,
    messages: Vec<GmMessage>,
    messages_by_thread: Vec<GmThreadIndex>,
    outbox: Vec<GmOutboxItem>,
    next_outbox_id: i64,
    cursors: Vec<GmSyncCursor>,
    pending: GmPendingWrites,
}

/// Sort key of thread listings: the last message's time, 0 when there is none.
pub open spec fn thread_time_key(t: GmThreadSummaryView) -> int {
    match t.last_message_timestamp {
        Some(ts) => ts as int,
        None => 0,
    }
}

/// Sort key of message listings: the message's time.
pub open spec fn message_time_key(m: GmMessageView) -> int {
    m.timestamp as int
}

/// The threads after an upsert of `t`: a stored thread with the same id is
/// replaced only when `t` is strictly newer.
pub open spec fn thread_upserted(
    threads: Map<Seq<char>, GmThreadSummaryView>,
    t: GmThreadSummaryView,
) -> Map<Seq<char>, GmThreadSummaryView> {
    let k = t.remote_thread_id;
    if threads.contains_key(k) && threads[k].updated_at >= t.updated_at {
        threads
    } else {
        threads.insert(k, t)
    }
}

/// The messages after an upsert of `m`.
pub open spec fn message_upserted(
    messages: Map<Seq<char>, GmMessageView>,
    m: GmMessageView,
) -> Map<Seq<char>, GmMessageView> {
    let k = m.remote_message_id;
    if messages.contains_key(k) {
        messages.insert(k, message_merged(messages[k], m))
    } else {
        messages.insert(k, m)
    }
}

/// The per-thread message index after an upsert of `m` into `messages`: a
/// message seen for the first time is appended to its thread's ids.
pub open spec fn index_upserted(
    messages: Map<Seq<char>, GmMessageView>,
    index: Map<Seq<char>, Seq<Seq<char>>>,
    m: GmMessageView,
) -> Map<Seq<char>, Seq<Seq<char>>> {
    if messages.contains_key(m.remote_message_id) {
        index
    } else {
        index.insert(
            m.remote_thread_id,
            ids_of_thread(index, m.remote_thread_id).push(m.remote_message_id),
        )
    }
}

/// `t` with its local conversation id set to `uuid`.
pub open spec fn thread_linked(t: GmThreadSummaryView, uuid: Seq<char>) -> GmThreadSummaryView {
    GmThreadSummaryView { local_thread_uuid: Some(uuid), ..t }
}

/// What an upsert of `incoming` makes of an already stored `existing` message:
/// only the status, the read flag and (when given) the local id are taken over.
pub open spec fn message_merged(existing: GmMessageView, incoming: GmMessageView) -> GmMessageView {
    GmMessageView {
        status: incoming.status,
        is_read: incoming.is_read,
        local_message_uuid: if incoming.local_message_uuid is Some {
            incoming.local_message_uuid
        } else {
            existing.local_message_uuid
        },
        ..existing
    }
}

/// `m` with its local message id set to `uuid`.
pub open spec fn message_linked(m: GmMessageView, uuid: Seq<char>) -> GmMessageView {
    GmMessageView { local_message_uuid: Some(uuid), ..m }
}

/// The message ids recorded for a thread (none when the thread is unknown).
pub open spec fn ids_of_thread(index: Map<Seq<char>, Seq<Seq<char>>>, thread: Seq<char>) -> Seq<
    Seq<char>,
> {
    if index.contains_key(thread) {
        index[thread]
    } else {
        Seq::empty()
    }
}

/// Whether a message is older than the `before` bound (any message when there is none).
pub open spec fn before_bound(m: GmMessageView, before: Option<i64>) -> bool {
    match before {
        Some(ts) => m.timestamp < ts,
        None => true,
    }
}

/// The stored messages named by `ids`, in that order, that are older than `before`;
/// ids without a stored message are skipped.
pub open spec fn messages_of(
    ids: Seq<Seq<char>>,
    messages: Map<Seq<char>, GmMessageView>,
    before: Option<i64>,
) -> Seq<GmMessageView>
    decreases ids.len(),
{
    if ids.len() == 0 {
        Seq::empty()
    } else {
        let prev = messages_of(ids.drop_last(), messages, before);
        let id = ids.last();
        if messages.contains_key(id) && before_bound(messages[id], before) {
            prev.push(messages[id])
        } else {
            prev
        }
    }
}

pub proof fn lemma_messages_of_members(
    ids: Seq<Seq<char>>,
    messages: Map<Seq<char>, GmMessageView>,
    before: Option<i64>,
    x: GmMessageView,
)
    requires
        messages_of(ids, messages, before).contains(x),
    ensures
        exists|i: int| 0 <= i < ids.len() && #[trigger] ids[i] == ids[i] && messages.contains_key(ids[i])
            && messages[ids[i]] == x,
        before_bound(x, before),
    decreases ids.len(),
{
    let prev = messages_of(ids.drop_last(), messages, before);
    let id = ids.last();
    if messages.contains_key(id) && before_bound(messages[id], before) && x == messages[id] {
        assert(ids[ids.len() - 1] == id);
    } else {
        if messages.contains_key(id) && before_bound(messages[id], before) {
            let s = prev.push(messages[id]);
            let j = choose|j: int| 0 <= j < s.len() && s[j] == x;
            assert(j < prev.len());
            assert(prev.contains(x));
        }
        lemma_messages_of_members(ids.drop_last(), messages, before, x);
        let i = choose|i: int|
            0 <= i < ids.drop_last().len() && #[trigger] ids.drop_last()[i] == ids.drop_last()[i]
                && messages.contains_key(ids.drop_last()[i]) && messages[ids.drop_last()[i]] == x;
        assert(ids[i] == ids.drop_last()[i]);
    }
}

/// Every message of a listing with a `before` bound `ts` is strictly older
/// than `ts`, whatever the limit: paging with the oldest listed time as the
/// next bound never lists a message twice.
pub proof fn law_listing_strictly_older(
    ids: Seq<Seq<char>>,
    messages: Map<Seq<char>, GmMessageView>,
    ts: i64,
    limit: usize,
)
    ensures
        ({
            let all = sort_desc(messages_of(ids, messages, Some(ts)), |m: GmMessageView| message_time_key(m));
            let listed = if limit < all.len() {
                all.take(limit as int)
            } else {
                all
            };
            forall|i: int| 0 <= i < listed.len() ==> (#[trigger] listed[i]).timestamp < ts
        }),
{
    broadcast use vstd::seq_lib::group_to_multiset_ensures;

    let key = |m: GmMessageView| message_time_key(m);
    let found = messages_of(ids, messages, Some(ts));
    let all = sort_desc(found, key);
    lemma_sort_desc(found, key);
    let listed = if limit < all.len() {
        all.take(limit as int)
    } else {
        all
    };
    assert forall|i: int| 0 <= i < listed.len() implies (#[trigger] listed[i]).timestamp < ts by {
        let x = listed[i];
        assert(x == all[i]);
        assert(all.contains(x));
        assert(all.to_multiset().count(x) > 0);
        assert(found.to_multiset().count(x) > 0);
        assert(found.contains(x));
        lemma_messages_of_members(ids, messages, Some(ts), x);
    }
}

/// A newly queued outbox item.
pub open spec fn queued_item(
    id: i64,
    account_id: Seq<char>,
    remote_thread_id: Seq<char>,
    local_message_uuid: Seq<char>,
    text: Seq<char>,
    created_at: i64,
) -> GmOutboxItemView {
    GmOutboxItemView {
        id,
        account_id,
        remote_thread_id,
        local_message_uuid,
        text,
        status: GmMessageStatus::Queued,
        attempts: 0,
        next_retry_at: None,
        last_error: None,
        created_at,
    }
}

/// The cursor record of a thread synced at `now`.
pub open spec fn cursor_record(thread: Seq<char>, cursor: Seq<char>, now: i64) -> GmSyncCursorView {
    GmSyncCursorView { remote_thread_id: thread, cursor, synced_at: now }
}

/// Whether an outbox item is due to be sent at time `now`: it is queued or
/// failed, and its retry time, if any, has come.
pub open spec fn is_due(item: GmOutboxItemView, now: i64) -> bool {
    &&& (item.status is Queued || item.status is Failed)
    &&& match item.next_retry_at {
        Some(t) => t <= now,
        None => true,
    }
}

/// The retry time of an item given up on: the largest timestamp, which no
/// clock reading before it reaches.
pub open spec fn given_up_retry_time() -> i64 {
    i64::MAX
}

/// An outbox item given up on with the failed `status`: the attempt is
/// counted, the status text becomes its last error, and its retry time is
/// the largest timestamp, so it is not due again.
pub open spec fn item_given_up(item: GmOutboxItemView, status: GmMessageStatus) -> GmOutboxItemView {
    GmOutboxItemView {
        status,
        last_error: match status {
            GmMessageStatus::Failed { error } => Some(error@),
            _ => None,
        },
        attempts: (item.attempts + 1) as u32,
        next_retry_at: Some(given_up_retry_time()),
        ..item
    }
}

/// Whether counting one more attempt of the item with id `id` stays within
/// its counter's range.
pub open spec fn attempt_in_range(s: Seq<GmOutboxItemView>, id: i64) -> bool {
    let p = position_of_id(s, id);
    p >= 0 ==> s[p].attempts < u32::MAX
}

/// An outbox item put back in the queue by hand: queued, with no attempts,
/// no retry time and no error.
pub open spec fn item_requeued(item: GmOutboxItemView) -> GmOutboxItemView {
    GmOutboxItemView {
        status: GmMessageStatus::Queued,
        attempts: 0,
        next_retry_at: None,
        last_error: None,
        ..item
    }
}

/// The items of `s` that are due at `now`, in queue order.
pub open spec fn due_items(s: Seq<GmOutboxItemView>, now: i64) -> Seq<GmOutboxItemView>
    decreases s.len(),
{
    if s.len() == 0 {
        Seq::empty()
    } else if is_due(s.last(), now) {
        due_items(s.drop_last(), now).push(s.last())
    } else {
        due_items(s.drop_last(), now)
    }
}

/// The items of `s` whose id is not `id`, in queue order.
pub open spec fn without_id(s: Seq<GmOutboxItemView>, id: i64) -> Seq<GmOutboxItemView>
    decreases s.len(),
{
    if s.len() == 0 {
        Seq::empty()
    } else if s.last().id != id {
        without_id(s.drop_last(), id).push(s.last())
    } else {
        without_id(s.drop_last(), id)
    }
}

/// Position of the first item of `s` with id `id`, or -1 when there is none.
pub open spec fn position_of_id(s: Seq<GmOutboxItemView>, id: i64) -> int
    decreases s.len(),
{
    if s.len() == 0 {
        -1
    } else if s[0].id == id {
        0
    } else {
        let p = position_of_id(s.drop_first(), id);
        if p < 0 {
            -1
        } else {
            p + 1
        }
    }
}

/// Seconds before the next attempt after the `attempts`-th failure.
pub open spec fn retry_delay_secs(attempts: u32) -> i64 {
    if attempts == 1 {
        10
    } else if attempts == 2 {
        30
    } else if attempts == 3 {
        60
    } else if attempts == 4 {
        120
    } else {
        300
    }
}

/// An outbox item after its status was set to `status` with error text `error`
/// at time `now`: a failure counts one more attempt and schedules the next one.
pub open spec fn item_with_status(
    item: GmOutboxItemView,
    status: GmMessageStatus,
    error: Option<Seq<char>>,
    now: i64,
) -> GmOutboxItemView {
    if status is Failed {
        let attempts = (item.attempts + 1) as u32;
        GmOutboxItemView {
            status,
            last_error: error,
            attempts,
            next_retry_at: Some((now + retry_delay_secs(attempts) * 1000) as i64),
            ..item
        }
    } else {
        GmOutboxItemView { status, last_error: error, ..item }
    }
}

/// Whether the retry time of a failure of the item with id `id` recorded at
/// time `now` (its delay after `now`) fits in an `i64`.
pub open spec fn retry_time_in_range(s: Seq<GmOutboxItemView>, id: i64, now: i64) -> bool {
    let p = position_of_id(s, id);
    p >= 0 ==> now + retry_delay_secs((s[p].attempts + 1) as u32) * 1000 <= i64::MAX
}

/// Where `position_of_id` can point.
pub proof fn lemma_position_of_id_bounds(s: Seq<GmOutboxItemView>, id: i64)
    ensures
        -1 <= position_of_id(s, id) < s.len(),
        position_of_id(s, id) >= 0 ==> s[position_of_id(s, id)].id == id,
    decreases s.len(),
{
    if s.len() > 0 && s[0].id != id {
        lemma_position_of_id_bounds(s.drop_first(), id);
    }
}

/// Removing an id after changing the item that carries it gives the same
/// queue as removing it right away.
pub proof fn lemma_without_id_update(s: Seq<GmOutboxItemView>, p: int, x: GmOutboxItemView, id: i64)
    requires
        0 <= p < s.len(),
        s[p].id == id,
        x.id == id,
    ensures
        without_id(s.update(p, x), id) == without_id(s, id),
    decreases s.len(),
{
    let t = s.update(p, x);
    if p < s.len() - 1 {
        lemma_without_id_update(s.drop_last(), p, x, id);
        assert(t.drop_last() =~= s.drop_last().update(p, x));
        assert(t.last() == s.last());
    } else {
        assert(t.drop_last() =~= s.drop_last());
    }
}

pub proof fn lemma_position_of_id(s: Seq<GmOutboxItemView>, id: i64, i: int)
    requires
        0 <= i <= s.len(),
        forall|j: int| 0 <= j < i ==> s[j].id != id,
        i < s.len() ==> s[i].id == id,
    ensures
        position_of_id(s, id) == if i < s.len() {
            i
        } else {
            -1
        },
    decreases s.len(),
{
    if s.len() > 0 && i > 0 {
        let t = s.drop_first();
        assert forall|j: int| 0 <= j < i - 1 implies t[j].id != id by {
            assert(t[j] == s[j + 1]);
        }
        if i < s.len() {
            assert(t[i - 1] == s[i]);
        }
        lemma_position_of_id(t, id, i - 1);
    }
}

/// Copies of thread indexes, each with the same thread id and message ids.
fn duplicate_indexes(v: &Vec<GmThreadIndex>) -> (r: Vec<GmThreadIndex>)
    ensures
        r@.len() == v@.len(),
        forall|i: int|
            0 <= i < v@.len() ==> #[trigger] r@[i].key_view() == v@[i].key_view() && r@[i]@ == v@[i]@,
{
    let mut out: Vec<GmThreadIndex> = Vec::new();
    let mut i: usize = 0;
    while i < v.len()
        invariant
            i <= v@.len(),
            out@.len() == i,
            forall|j: int|
                0 <= j < i ==> #[trigger] out@[j].key_view() == v@[j].key_view() && out@[j]@ == v@[j]@,
        decreases v@.len() - i,
    {
        out.push(v[i].clone());
        i = i + 1;
    }
    out
}

impl GmDatabase {
    /// The store's invariant: no two threads, messages, thread indexes or cursors share a key.
    pub closed spec fn wf(&self) -> bool {
        &&& keys_unique(self.threads@)
        &&& keys_unique(self.messages@)
        &&& keys_unique(self.messages_by_thread@)
        &&& keys_unique(self.cursors@)
    }

    /// Threads by remote thread id.
    pub closed spec fn threads_view(&self) -> Map<Seq<char>, GmThreadSummaryView> {
        keyed_map(self.threads@)
    }

    /// The stored threads in the order in which the store keeps them.
    pub closed spec fn thread_order(&self) -> Seq<GmThreadSummaryView> {
        views(self.threads@)
    }

    /// Messages by remote message id.
    pub closed spec fn messages_view(&self) -> Map<Seq<char>, GmMessageView> {
        keyed_map(self.messages@)
    }

    /// For each thread, the ids of its messages in the order they were first stored.
    pub closed spec fn thread_index_view(&self) -> Map<Seq<char>, Seq<Seq<char>>> {
        keyed_map(self.messages_by_thread@)
    }

    /// The outbox queue, oldest first.
    pub closed spec fn outbox_view(&self) -> Seq<GmOutboxItemView> {
        views(self.outbox@)
    }

    /// The id that the next queued outbox item receives.
    pub closed spec fn next_id(&self) -> i64 {
        self.next_outbox_id
    }

    /// Sync cursors by remote thread id.
    pub closed spec fn cursors_view(&self) -> Map<Seq<char>, GmSyncCursorView> {
        keyed_map(self.cursors@)
    }

    /// Parts changed since they were last handed out for saving.
    pub closed spec fn pending_view(&self) -> GmPendingWrites {
        self.pending
    }

    /// `self` and `other` hold the same data; only the parts marked for saving may differ.
    pub closed spec fn same_data(&self, other: &Self) -> bool {
        &&& self.threads == other.threads
        &&& self.messages == other.messages
        &&& self.messages_by_thread == other.messages_by_thread
        &&& self.outbox == other.outbox
        &&& self.next_outbox_id == other.next_outbox_id
        &&& self.cursors == other.cursors
    }

    /// `self` and `other` hold the same messages, outbox and cursors.
    pub closed spec fn same_except_threads(&self, other: &Self) -> bool {
        &&& self.messages == other.messages
        &&& self.messages_by_thread == other.messages_by_thread
        &&& self.outbox == other.outbox
        &&& self.next_outbox_id == other.next_outbox_id
        &&& self.cursors == other.cursors
    }

    /// `self` and `other` hold the same threads, outbox and cursors.
    pub closed spec fn same_except_messages(&self, other: &Self) -> bool {
        &&& self.threads == other.threads
        &&& self.outbox == other.outbox
        &&& self.next_outbox_id == other.next_outbox_id
        &&& self.cursors == other.cursors
    }

    /// `self` and `other` hold the same threads, messages and cursors.
    pub closed spec fn same_except_outbox(&self, other: &Self) -> bool {
        &&& self.threads == other.threads
        &&& self.messages == other.messages
        &&& self.messages_by_thread == other.messages_by_thread
        &&& self.cursors == other.cursors
    }

    /// `self` and `other` hold the same threads, messages and outbox.
    pub closed spec fn same_except_cursors(&self, other: &Self) -> bool {
        &&& self.threads == other.threads
        &&& self.messages == other.messages
        &&& self.messages_by_thread == other.messages_by_thread
        &&& self.outbox == other.outbox
        &&& self.next_outbox_id == other.next_outbox_id
    }

    /// Every stored thread appears exactly once in the store's order, which is
    /// what thread listings sort.
    pub proof fn lemma_thread_order(&self)
        requires
            self.wf(),
        ensures
            forall|i: int|
                0 <= i < self.thread_order().len() ==> self.threads_view().contains_key(
                    (#[trigger] self.thread_order()[i]).remote_thread_id,
                ) && self.threads_view()[self.thread_order()[i].remote_thread_id]
                    == self.thread_order()[i],
            forall|k: Seq<char>| #[trigger]
                self.threads_view().contains_key(k) ==> exists|i: int|
                    0 <= i < self.thread_order().len() && (#[trigger] self.thread_order()[i]).remote_thread_id
                        == k,
            forall|i: int, j: int|
                0 <= i < self.thread_order().len() && 0 <= j < self.thread_order().len()
                    && (#[trigger] self.thread_order()[i]).remote_thread_id
                    == (#[trigger] self.thread_order()[j]).remote_thread_id ==> i == j,
    {
        let order = self.thread_order();
        assert forall|i: int| 0 <= i < order.len() implies self.threads_view().contains_key(
            (#[trigger] order[i]).remote_thread_id,
        ) && self.threads_view()[order[i].remote_thread_id] == order[i] by {
            lemma_keyed_lookup(self.threads@, i);
        }
        assert forall|k: Seq<char>| #[trigger] self.threads_view().contains_key(k) implies exists|
            i: int,
        | 0 <= i < order.len() && (#[trigger] order[i]).remote_thread_id == k by {
            let i = key_index(self.threads@, k);
            assert(self.threads@[i].key_view() == k);
            assert(order[i] == self.threads@[i]@);
        }
        assert forall|i: int, j: int|
            0 <= i < order.len() && 0 <= j < order.len() && (#[trigger] order[i]).remote_thread_id
                == (#[trigger] order[j]).remote_thread_id implies i == j by {
            assert(self.threads@[i].key_view() == order[i].remote_thread_id);
            assert(self.threads@[j].key_view() == order[j].remote_thread_id);
        }
    }

    /// What each frame condition keeps, in terms of the views.
    pub proof fn lemma_frames(a: &Self, b: &Self)
        ensures
            a.same_except_threads(b) ==> {
                &&& a.messages_view() == b.messages_view()
                &&& a.thread_index_view() == b.thread_index_view()
                &&& a.outbox_view() == b.outbox_view()
                &&& a.next_id() == b.next_id()
                &&& a.cursors_view() == b.cursors_view()
            },
            a.same_except_messages(b) ==> {
                &&& a.threads_view() == b.threads_view()
                &&& a.thread_order() == b.thread_order()
                &&& a.outbox_view() == b.outbox_view()
                &&& a.next_id() == b.next_id()
                &&& a.cursors_view() == b.cursors_view()
            },
            a.same_except_outbox(b) ==> {
                &&& a.threads_view() == b.threads_view()
                &&& a.thread_order() == b.thread_order()
                &&& a.messages_view() == b.messages_view()
                &&& a.thread_index_view() == b.thread_index_view()
                &&& a.cursors_view() == b.cursors_view()
            },
            a.same_except_cursors(b) ==> {
                &&& a.threads_view() == b.threads_view()
                &&& a.thread_order() == b.thread_order()
                &&& a.messages_view() == b.messages_view()
                &&& a.thread_index_view() == b.thread_index_view()
                &&& a.outbox_view() == b.outbox_view()
                &&& a.next_id() == b.next_id()
            },
    {
    }

    /// A store differs from itself at most in its outbox.
    pub proof fn lemma_same_except_outbox_refl(a: &Self)
        ensures
            a.same_except_outbox(a),
    {
    }

    /// Changing only the outbox twice changes only the outbox.
    pub proof fn lemma_same_except_outbox_trans(a: &Self, b: &Self, c: &Self)
        requires
            b.same_except_outbox(a),
            c.same_except_outbox(b),
        ensures
            c.same_except_outbox(a),
    {
    }

    /// An empty store.
    pub fn new() -> (db: Self)
        ensures
            db.wf(),
            db.threads_view() == Map::<Seq<char>, GmThreadSummaryView>::empty(),
            db.thread_order() == Seq::<GmThreadSummaryView>::empty(),
            db.messages_view() == Map::<Seq<char>, GmMessageView>::empty(),
            db.thread_index_view() == Map::<Seq<char>, Seq<Seq<char>>>::empty(),
            db.outbox_view() == Seq::<GmOutboxItemView>::empty(),
            db.next_id() == 0,
            db.cursors_view() == Map::<Seq<char>, GmSyncCursorView>::empty(),
            db.pending_view() == (GmPendingWrites {
                threads: false,
                messages: false,
                outbox: false,
                cursors: false,
            }),
    {
        let db = GmDatabase {
            threads: Vec::new(),
            messages: Vec::new(),
            messages_by_thread: Vec::new(),
            outbox: Vec::new(),
            next_outbox_id: 0,
            cursors: Vec::new(),
            pending: GmPendingWrites { threads: false, messages: false, outbox: false, cursors: false },
        };
        proof {
            lemma_keyed_empty(db.threads@);
            lemma_keyed_empty(db.messages@);
            lemma_keyed_empty(db.messages_by_thread@);
            lemma_keyed_empty(db.cursors@);
            assert(views(db.threads@) =~= Seq::<GmThreadSummaryView>::empty());
            assert(views(db.outbox@) =~= Seq::<GmOutboxItemView>::empty());
        }
        db
    }

    // ============= THREAD OPERATIONS =============

    /// Upserts a thread, keyed by its remote thread id. A stored thread is
    /// replaced only by a strictly newer one (larger `updated_at`).
    pub fn upsert_thread(&mut self, thread: GmThreadSummary) -> (r: Result<(), GmError>)
        requires
            old(self).wf(),
        ensures
            final(self).wf(),
            r is Ok,
            final(self).threads_view() == thread_upserted(old(self).threads_view(), thread@),
            ({
                let k = thread.remote_thread_id@;
                if old(self).threads_view().contains_key(k) && old(self).threads_view()[k].updated_at
                    >= thread.updated_at {
                    *final(self) == *old(self)
                } else {
                    &&& final(self).same_except_threads(old(self))
                    &&& final(self).pending_view() == (GmPendingWrites {
                        threads: true,
                        ..old(self).pending_view()
                    })
                }
            }),
    {
        match find_key(&self.threads, &thread.remote_thread_id) {
            Some(i) => {
                proof {
                    lemma_keyed_lookup(self.threads@, i as int);
                }
                if self.threads[i].updated_at >= thread.updated_at {
                    return Ok(());
                }
                proof {
                    lemma_keyed_update(self.threads@, i as int, thread);
                }
                self.threads[i] = thread;
            },
            None => {
                proof {
                    lemma_keyed_push(self.threads@, thread);
                }
                self.threads.push(thread);
            },
        }
        self.pending.threads = true;
        Ok(())
    }

    /// All threads, the most recent last message first (a thread without one
    /// counts as time 0); threads with equal times keep the store's order.
    pub fn get_threads(&self) -> (r: Vec<GmThreadSummary>)
        ensures
            views(r@) == sort_desc(self.thread_order(), |t: GmThreadSummaryView| thread_time_key(t)),
    {
        let all = duplicate_all(&self.threads);
        let sorted = sort_desc_exec(all);
        proof {
            assert((|v: GmThreadSummaryView| <GmThreadSummary as SortKey>::view_key(v)) =~= (|
                t: GmThreadSummaryView,
            | thread_time_key(t)));
        }
        sorted
    }

    /// The thread with the given remote id.
    pub fn get_thread(&self, remote_thread_id: &str) -> (r: Option<GmThreadSummary>)
        requires
            self.wf(),
        ensures
            match r {
                Some(t) => self.threads_view().contains_key(remote_thread_id@) && t@
                    == self.threads_view()[remote_thread_id@],
                None => !self.threads_view().contains_key(remote_thread_id@),
            },
    {
        let key = owned(remote_thread_id);
        match find_key(&self.threads, &key) {
            Some(i) => {
                proof {
                    lemma_keyed_lookup(self.threads@, i as int);
                }
                Some(self.threads[i].clone())
            },
            None => None,
        }
    }

    /// The first thread, in the store's order, linked to the local conversation `local_uuid`.
    pub fn get_thread_by_local_uuid(&self, local_uuid: &str) -> (r: Option<GmThreadSummary>)
        ensures
            match r {
                Some(t) => exists|i: int|
                    0 <= i < self.thread_order().len() && self.thread_order()[i] == t@
                        && t@.local_thread_uuid == Some(local_uuid@) && forall|j: int|
                        0 <= j < i ==> self.thread_order()[j].local_thread_uuid != Some(
                            local_uuid@,
                        ),
                None => forall|i: int|
                    0 <= i < self.thread_order().len() ==> self.thread_order()[i].local_thread_uuid
                        != Some(local_uuid@),
            },
    {
        let wanted = owned(local_uuid);
        let mut i: usize = 0;
        while i < self.threads.len()
            invariant
                i <= self.threads@.len(),
                wanted@ == local_uuid@,
                forall|j: int|
                    0 <= j < i ==> self.thread_order()[j].local_thread_uuid != Some(local_uuid@),
            decreases self.threads@.len() - i,
        {
            let found = match &self.threads[i].local_thread_uuid {
                Some(u) => u.eq(&wanted),
                None => false,
            };
            if found {
                let t = self.threads[i].clone();
                proof {
                    assert(self.thread_order()[i as int] == self.threads@[i as int]@);
                }
                return Some(t);
            }
            proof {
                assert(self.thread_order()[i as int] == self.threads@[i as int]@);
            }
            i = i + 1;
        }
        None
    }

    /// Links a remote thread to a local conversation id.
    pub fn link_thread_to_local(&mut self, remote_thread_id: &str, local_uuid: &str) -> (r: Result<
        (),
        GmError,
    >)
        requires
            old(self).wf(),
        ensures
            final(self).wf(),
            ({
                let k = remote_thread_id@;
                if old(self).threads_view().contains_key(k) {
                    &&& r is Ok
                    &&& final(self).threads_view() == old(self).threads_view().insert(
                        k,
                        thread_linked(old(self).threads_view()[k], local_uuid@),
                    )
                    &&& final(self).same_except_threads(old(self))
                    &&& final(self).pending_view() == (GmPendingWrites {
                        threads: true,
                        ..old(self).pending_view()
                    })
                } else {
                    &&& r matches Err(GmError::DatabaseError { message }) && message@
                        == "Thread not found: "@ + k
                    &&& *final(self) == *old(self)
                }
            }),
    {
        let key = owned(remote_thread_id);
        match find_key(&self.threads, &key) {
            Some(i) => {
                let mut t = self.threads[i].clone();
                t.local_thread_uuid = Some(owned(local_uuid));
                proof {
                    lemma_keyed_lookup(self.threads@, i as int);
                    lemma_keyed_update(self.threads@, i as int, t);
                    assert(t@ == thread_linked(self.threads@[i as int]@, local_uuid@));
                }
                self.threads[i] = t;
                self.pending.threads = true;
                Ok(())
            },
            None => Err(GmError::DatabaseError { message: concat_str("Thread not found: ", remote_thread_id) }),
        }
    }

    // ============= MESSAGE OPERATIONS =============

    /// Upserts a message, keyed by its remote message id. A new message is
    /// stored and appended to its thread's index; for a known one only the
    /// status, the read flag and (when given) the local id are taken over.
    pub fn upsert_message(&mut self, message: GmMessage) -> (r: Result<(), GmError>)
        requires
            old(self).wf(),
        ensures
            final(self).wf(),
            r is Ok,
            final(self).same_except_messages(old(self)),
            final(self).pending_view() == (GmPendingWrites {
                messages: true,
                ..old(self).pending_view()
            }),
            final(self).messages_view() == message_upserted(old(self).messages_view(), message@),
            final(self).messages_view().contains_key(message.remote_message_id@),
            final(self).messages_view()[message.remote_message_id@].status == message.status,
            final(self).messages_view()[message.remote_message_id@].is_read == message.is_read,
            final(self).thread_index_view() == index_upserted(
                old(self).messages_view(),
                old(self).thread_index_view(),
                message@,
            ),
    {
        let remote_id = message.remote_message_id.clone();
        let thread_id = message.remote_thread_id.clone();
        match find_key(&self.messages, &remote_id) {
            Some(i) => {
                let mut updated = self.messages[i].clone();
                let ghost incoming = message@;
                updated.status = message.status;
                updated.is_read = message.is_read;
                if message.local_message_uuid.is_some() {
                    updated.local_message_uuid = message.local_message_uuid;
                }
                proof {
                    lemma_keyed_lookup(self.messages@, i as int);
                    assert(updated@ == message_merged(self.messages@[i as int]@, incoming));
                    lemma_keyed_update(self.messages@, i as int, updated);
                }
                self.messages[i] = updated;
            },
            None => {
                proof {
                    lemma_keyed_push(self.messages@, message);
                }
                self.messages.push(message);
                match find_key(&self.messages_by_thread, &thread_id) {
                    Some(j) => {
                        let mut entry = self.messages_by_thread[j].clone();
                        let ghost before = entry.message_ids@;
                        entry.message_ids.push(remote_id);
                        proof {
                            lemma_keyed_lookup(self.messages_by_thread@, j as int);
                            assert(entry@ =~= self.messages_by_thread@[j as int]@.push(
                                remote_id@,
                            ));
                            lemma_keyed_update(self.messages_by_thread@, j as int, entry);
                        }
                        self.messages_by_thread[j] = entry;
                    },
                    None => {
                        let mut ids: Vec<String> = Vec::new();
                        ids.push(remote_id);
                        let entry = GmThreadIndex { remote_thread_id: thread_id, message_ids: ids };
                        proof {
                            assert(entry@ =~= Seq::<Seq<char>>::empty().push(remote_id@));
                            lemma_keyed_push(self.messages_by_thread@, entry);
                        }
                        self.messages_by_thread.push(entry);
                    },
                }
            },
        }
        self.pending.messages = true;
        Ok(())
    }

    /// Messages of a thread, newest first, at most `limit` of them; with
    /// `before_timestamp` only those strictly older than it. Messages with
    /// equal times keep the order in which they were first stored.
    pub fn get_messages(
        &self,
        remote_thread_id: &str,
        limit: usize,
        before_timestamp: Option<i64>,
    ) -> (r: Vec<GmMessage>)
        requires
            self.wf(),
        ensures
            ({
                let all = sort_desc(
                    messages_of(
                        ids_of_thread(self.thread_index_view(), remote_thread_id@),
                        self.messages_view(),
                        before_timestamp,
                    ),
                    |m: GmMessageView| message_time_key(m),
                );
                views(r@) == if limit < all.len() {
                    all.take(limit as int)
                } else {
                    all
                }
            }),
    {
        let key = owned(remote_thread_id);
        let ghost ids = ids_of_thread(self.thread_index_view(), remote_thread_id@);
        let ghost mm = self.messages_view();
        let mut found: Vec<GmMessage> = Vec::new();
        match find_key(&self.messages_by_thread, &key) {
            Some(j) => {
                proof {
                    lemma_keyed_lookup(self.messages_by_thread@, j as int);
                }
                let entry = &self.messages_by_thread[j];
                let n = entry.message_ids.len();
                let mut i: usize = 0;
                while i < n
                    invariant
                        n == entry.message_ids@.len(),
                        i <= n,
                        entry@ == ids,
                        mm == self.messages_view(),
                        keys_unique(self.messages@),
                        views(found@) == messages_of(ids.take(i as int), mm, before_timestamp),
                    decreases n - i,
                {
                    let id = &entry.message_ids[i];
                    let ghost prev = found@;
                    proof {
                        assert(ids.take(i as int + 1).drop_last() =~= ids.take(i as int));
                        assert(ids.take(i as int + 1).last() == id@);
                    }
                    match find_key(&self.messages, id) {
                        Some(p) => {
                            proof {
                                lemma_keyed_lookup(self.messages@, p as int);
                            }
                            let m = &self.messages[p];
                            let keep = match before_timestamp {
                                Some(ts) => m.timestamp < ts,
                                None => true,
                            };
                            if keep {
                                found.push(m.clone());
                                proof {
                                    assert(views(found@) =~= views(prev).push(m@));
                                }
                            }
                        },
                        None => {},
                    }
                    i = i + 1;
                }
                proof {
                    assert(ids.take(n as int) =~= ids);
                }
            },
            None => {
                proof {
                    assert(views(found@) =~= Seq::<GmMessageView>::empty());
                }
            },
        }
        let mut sorted = sort_desc_exec(found);
        proof {
            assert((|v: GmMessageView| <GmMessage as SortKey>::view_key(v)) =~= (|m: GmMessageView|
                message_time_key(m)));
        }
        let ghost full = sorted@;
        sorted.truncate(limit);
        proof {
            if limit < full.len() {
                assert(views(sorted@) =~= views(full).take(limit as int));
            }
        }
        sorted
    }

    /// The message with the given remote id.
    pub fn get_message(&self, remote_message_id: &str) -> (r: Option<GmMessage>)
        requires
            self.wf(),
        ensures
            match r {
                Some(m) => self.messages_view().contains_key(remote_message_id@) && m@
                    == self.messages_view()[remote_message_id@],
                None => !self.messages_view().contains_key(remote_message_id@),
            },
    {
        let key = owned(remote_message_id);
        match find_key(&self.messages, &key) {
            Some(i) => {
                proof {
                    lemma_keyed_lookup(self.messages@, i as int);
                }
                Some(self.messages[i].clone())
            },
            None => None,
        }
    }

    /// Links a remote message to a local message id.
    pub fn link_message_to_local(&mut self, remote_message_id: &str, local_uuid: &str) -> (r:
        Result<(), GmError>)
        requires
            old(self).wf(),
        ensures
            final(self).wf(),
            ({
                let k = remote_message_id@;
                if old(self).messages_view().contains_key(k) {
                    &&& r is Ok
                    &&& final(self).messages_view() == old(self).messages_view().insert(
                        k,
                        message_linked(old(self).messages_view()[k], local_uuid@),
                    )
                    &&& final(self).thread_index_view() == old(self).thread_index_view()
                    &&& final(self).same_except_messages(old(self))
                    &&& final(self).pending_view() == (GmPendingWrites {
                        messages: true,
                        ..old(self).pending_view()
                    })
                } else {
                    &&& r matches Err(GmError::DatabaseError { message }) && message@
                        == "Message not found: "@ + k
                    &&& *final(self) == *old(self)
                }
            }),
    {
        let key = owned(remote_message_id);
        match find_key(&self.messages, &key) {
            Some(i) => {
                let mut m = self.messages[i].clone();
                m.local_message_uuid = Some(owned(local_uuid));
                proof {
                    lemma_keyed_lookup(self.messages@, i as int);
                    lemma_keyed_update(self.messages@, i as int, m);
                }
                self.messages[i] = m;
                self.pending.messages = true;
                Ok(())
            },
            None => Err(
                GmError::DatabaseError { message: concat_str("Message not found: ", remote_message_id) },
            ),
        }
    }

    // ============= OUTBOX OPERATIONS =============

    /// Queues a message in the outbox, created at time `now`, and returns its id.
    pub fn add_to_outbox_at(
        &mut self,
        account_id: &str,
        remote_thread_id: &str,
        local_message_uuid: &str,
        text: &str,
        now: i64,
    ) -> (r: Result<i64, GmError>)
        requires
            old(self).wf(),
            old(self).next_id() < i64::MAX,
        ensures
            final(self).wf(),
            r == Ok::<i64, GmError>(old(self).next_id()),
            final(self).next_id() == old(self).next_id() + 1,
            final(self).outbox_view() == old(self).outbox_view().push(
                queued_item(
                    old(self).next_id(),
                    account_id@,
                    remote_thread_id@,
                    local_message_uuid@,
                    text@,
                    now,
                ),
            ),
            final(self).same_except_outbox(old(self)),
            final(self).pending_view() == (GmPendingWrites {
                outbox: true,
                ..old(self).pending_view()
            }),
    {
        let id = self.next_outbox_id;
        self.next_outbox_id = self.next_outbox_id + 1;
        let item = GmOutboxItem {
            id,
            account_id: owned(account_id),
            remote_thread_id: owned(remote_thread_id),
            local_message_uuid: owned(local_message_uuid),
            text: owned(text),
            status: GmMessageStatus::Queued,
            attempts: 0,
            next_retry_at: None,
            last_error: None,
            created_at: now,
        };
        let ghost before = self.outbox@;
        self.outbox.push(item);
        proof {
            assert(views(self.outbox@) =~= views(before).push(item@));
        }
        self.pending.outbox = true;
        Ok(id)
    }

    /// Queues a message in the outbox, stamped with the current time, and returns its id.
    pub fn add_to_outbox(
        &mut self,
        account_id: &str,
        remote_thread_id: &str,
        local_message_uuid: &str,
        text: &str,
    ) -> (r: Result<i64, GmError>)
        requires
            old(self).wf(),
            old(self).next_id() < i64::MAX,
        ensures
            final(self).wf(),
            r == Ok::<i64, GmError>(old(self).next_id()),
            final(self).next_id() == old(self).next_id() + 1,
            exists|now: i64|
                final(self).outbox_view() == old(self).outbox_view().push(
                    #[trigger] queued_item(
                        old(self).next_id(),
                        account_id@,
                        remote_thread_id@,
                        local_message_uuid@,
                        text@,
                        now,
                    ),
                ),
            final(self).same_except_outbox(old(self)),
            final(self).pending_view() == (GmPendingWrites {
                outbox: true,
                ..old(self).pending_view()
            }),
    {
        let now = current_timestamp_millis();
        self.add_to_outbox_at(account_id, remote_thread_id, local_message_uuid, text, now)
    }

    /// Outbox items due to be sent at time `now`, in queue order.
    pub fn get_pending_outbox_items_at(&self, now: i64) -> (r: Vec<GmOutboxItem>)
        ensures
            views(r@) == due_items(self.outbox_view(), now),
    {
        let ghost all = self.outbox_view();
        let mut out: Vec<GmOutboxItem> = Vec::new();
        let mut i: usize = 0;
        while i < self.outbox.len()
            invariant
                i <= self.outbox@.len(),
                all == views(self.outbox@),
                views(out@) == due_items(all.take(i as int), now),
            decreases self.outbox@.len() - i,
        {
            let item = &self.outbox[i];
            let ghost prev = out@;
            proof {
                assert(all.take(i as int + 1).drop_last() =~= all.take(i as int));
                assert(all.take(i as int + 1).last() == item@);
            }
            let status_ok = match item.status {
                GmMessageStatus::Queued => true,
                GmMessageStatus::Failed { .. } => true,
                _ => false,
            };
            let time_ok = match item.next_retry_at {
                Some(t) => t <= now,
                None => true,
            };
            if status_ok && time_ok {
                out.push(item.clone());
                proof {
                    assert(views(out@) =~= views(prev).push(item@));
                }
            }
            i = i + 1;
        }
        proof {
            assert(all.take(self.outbox@.len() as int) =~= all);
        }
        out
    }

    /// Outbox items due to be sent now, in queue order.
    pub fn get_pending_outbox_items(&self) -> (r: Vec<GmOutboxItem>)
        ensures
            exists|now: i64| views(r@) == #[trigger] due_items(self.outbox_view(), now),
    {
        let now = current_timestamp_millis();
        self.get_pending_outbox_items_at(now)
    }

    /// Sets the status and error text of the first outbox item with id `id`, at
    /// time `now`. A failure counts one more attempt and schedules the next one
    /// after 10, 30, 60, 120 and then 300 seconds; when that retry time would
    /// pass the largest timestamp, the store is left unchanged and an
    /// `Unknown` error is returned (see [`GmDatabase::status_update_outcome`]).
    pub fn update_outbox_status_at(
        &mut self,
        id: i64,
        status: GmMessageStatus,
        error: Option<String>,
        now: i64,
    ) -> (r: Result<(), GmError>)
        requires
            old(self).wf(),
            status is Failed ==> attempt_in_range(old(self).outbox_view(), id),
        ensures
            final(self).wf(),
            final(self).status_update_outcome(old(self), id, status, error.deep_view(), now, r),
    {
        match self.find_outbox_position(id) {
            None => Err(GmError::DatabaseError { message: with_decimal_suffix("Outbox item not found: ", id) }),
            Some(i) => {
                let ghost before = self.outbox_view()[i as int];
                let mut item = self.outbox[i].clone();
                proof {
                    assert(before == self.outbox@[i as int]@);
                }
                let ghost err = error.deep_view();
                let ghost st = status;
                if status.is_failed() {
                    let attempts = item.attempts + 1;
                    let delay_ms: i64 = if attempts == 1 {
                        10_000
                    } else if attempts == 2 {
                        30_000
                    } else if attempts == 3 {
                        60_000
                    } else if attempts == 4 {
                        120_000
                    } else {
                        300_000
                    };
                    assert(delay_ms == retry_delay_secs(attempts) * 1000);
                    if now > i64::MAX - delay_ms {
                        proof {
                            reveal_strlit("System clock out of range");
                        }
                        return Err(GmError::Unknown { message: owned("System clock out of range") });
                    }
                    item.attempts = attempts;
                    item.next_retry_at = Some(now + delay_ms);
                }
                item.status = status;
                item.last_error = error;
                proof {
                    assert(item@ == item_with_status(before, st, err, now));
                }
                self.set_outbox_item(i, item);
                Ok(())
            },
        }
    }

    /// Sets the status and error text of the first outbox item with id `id`, at
    /// the current time: [`GmDatabase::update_outbox_status_at`] with the
    /// clock's reading.
    pub fn update_outbox_status(
        &mut self,
        id: i64,
        status: GmMessageStatus,
        error: Option<String>,
    ) -> (r: Result<(), GmError>)
        requires
            old(self).wf(),
            status is Failed ==> attempt_in_range(old(self).outbox_view(), id),
        ensures
            final(self).wf(),
            exists|now: i64| #[trigger]
                final(self).status_update_outcome(old(self), id, status, error.deep_view(), now, r),
    {
        let now = current_timestamp_millis();
        self.update_outbox_status_at(id, status, error, now)
    }

    /// What [`GmDatabase::update_outbox_status_at`] promises of `self` as the
    /// store after setting `status` on the item with id `id` of `old` at time
    /// `now`, and of its result `r`: a failure whose retry time would pass the
    /// largest timestamp changes nothing and is an `Unknown` error; anything
    /// else is [`GmDatabase::status_update_result`].
    pub open spec fn status_update_outcome(
        &self,
        old: &Self,
        id: i64,
        status: GmMessageStatus,
        error: Option<Seq<char>>,
        now: i64,
        r: Result<(), GmError>,
    ) -> bool {
        if status is Failed && !retry_time_in_range(old.outbox_view(), id, now) {
            &&& r matches Err(GmError::Unknown { message }) && message@ == "System clock out of range"@
            &&& *self == *old
        } else {
            self.status_update_result(old, id, status, error, now, r)
        }
    }

    /// Position of the first outbox item with id `id`.
    fn find_outbox_position(&self, id: i64) -> (r: Option<usize>)
        ensures
            match r {
                Some(i) => i == position_of_id(self.outbox_view(), id) && i < self.outbox_view().len(),
                None => position_of_id(self.outbox_view(), id) < 0,
            },
    {
        let ghost all = self.outbox_view();
        let mut i: usize = 0;
        while i < self.outbox.len()
            invariant
                i <= self.outbox@.len(),
                all == views(self.outbox@),
                forall|j: int| 0 <= j < i ==> all[j].id != id,
            decreases self.outbox@.len() - i,
        {
            if self.outbox[i].id == id {
                proof {
                    assert(all[i as int] == self.outbox@[i as int]@);
                    lemma_position_of_id(all, id, i as int);
                }
                return Some(i);
            }
            proof {
                assert(all[i as int] == self.outbox@[i as int]@);
            }
            i = i + 1;
        }
        proof {
            lemma_position_of_id(all, id, self.outbox@.len() as int);
        }
        None
    }

    /// Replaces the outbox item at position `i` with `item`.
    fn set_outbox_item(&mut self, i: usize, item: GmOutboxItem)
        requires
            old(self).wf(),
            i < old(self).outbox_view().len(),
        ensures
            final(self).wf(),
            final(self).outbox_view() == old(self).outbox_view().update(i as int, item@),
            final(self).same_except_outbox(old(self)),
            final(self).next_id() == old(self).next_id(),
            final(self).pending_view() == (GmPendingWrites { outbox: true, ..old(self).pending_view() }),
    {
        let ghost before = self.outbox@;
        let ghost item_view = item@;
        self.outbox.set(i, item);
        proof {
            assert(views(self.outbox@) =~= views(before).update(i as int, item_view));
        }
        self.pending.outbox = true;
    }

    /// What a change of the first outbox item with id `id` into
    /// `change(item)` promises of `self` as the store after the change of
    /// `old`, and of its result `r`.
    pub open spec fn outbox_item_changed(
        &self,
        old: &Self,
        id: i64,
        change: spec_fn(GmOutboxItemView) -> GmOutboxItemView,
        r: Result<(), GmError>,
    ) -> bool {
        let p = position_of_id(old.outbox_view(), id);
        if p >= 0 {
            &&& r is Ok
            &&& self.outbox_view() == old.outbox_view().update(p, change(old.outbox_view()[p]))
            &&& self.same_except_outbox(old)
            &&& self.next_id() == old.next_id()
            &&& self.pending_view() == (GmPendingWrites { outbox: true, ..old.pending_view() })
        } else {
            &&& r matches Err(GmError::DatabaseError { message }) && message@
                == "Outbox item not found: "@ + decimal_int(id as int)
            &&& *self == *old
        }
    }

    /// What [`GmDatabase::give_up_outbox_item`] promises of `self` as the store
    /// after giving up on the item with id `id` of `old` with `status`.
    pub open spec fn given_up_result(&self, old: &Self, id: i64, status: GmMessageStatus, r: Result<
        (),
        GmError,
    >) -> bool {
        self.outbox_item_changed(old, id, |x: GmOutboxItemView| item_given_up(x, status), r)
    }

    /// Gives up on the first outbox item with id `id`: it takes the failed
    /// `status` (whose text becomes its last error), the attempt is counted,
    /// and its retry time becomes the largest timestamp, so it is not due again.
    pub fn give_up_outbox_item(&mut self, id: i64, status: GmMessageStatus) -> (r: Result<(), GmError>)
        requires
            old(self).wf(),
            status is Failed,
            attempt_in_range(old(self).outbox_view(), id),
        ensures
            final(self).wf(),
            final(self).given_up_result(old(self), id, status, r),
    {
        match self.find_outbox_position(id) {
            Some(i) => {
                let mut item = self.outbox[i].clone();
                let ghost before = item@;
                proof {
                    assert(before == self.outbox_view()[i as int]);
                }
                let text = match &status {
                    GmMessageStatus::Failed { error } => Some(error.clone()),
                    _ => None,
                };
                item.status = status;
                item.last_error = text;
                item.attempts = item.attempts + 1;
                item.next_retry_at = Some(i64::MAX);
                proof {
                    assert(item@ == item_given_up(before, status));
                }
                self.set_outbox_item(i, item);
                Ok(())
            },
            None => Err(GmError::DatabaseError { message: with_decimal_suffix("Outbox item not found: ", id) }),
        }
    }

    /// Puts the first outbox item with id `id` back in the queue by hand:
    /// queued, with its attempts, retry time and error cleared.
    pub fn requeue_outbox_item(&mut self, id: i64) -> (r: Result<(), GmError>)
        requires
            old(self).wf(),
        ensures
            final(self).wf(),
            final(self).outbox_item_changed(old(self), id, |x: GmOutboxItemView| item_requeued(x), r),
    {
        match self.find_outbox_position(id) {
            Some(i) => {
                let mut item = self.outbox[i].clone();
                let ghost before = item@;
                proof {
                    assert(before == self.outbox_view()[i as int]);
                }
                item.status = GmMessageStatus::Queued;
                item.attempts = 0;
                item.next_retry_at = None;
                item.last_error = None;
                proof {
                    assert(item@ == item_requeued(before));
                }
                self.set_outbox_item(i, item);
                Ok(())
            },
            None => Err(GmError::DatabaseError { message: with_decimal_suffix("Outbox item not found: ", id) }),
        }
    }

    /// What [`GmDatabase::update_outbox_status_at`] promises of `self` as the
    /// store after the update of `old` and of its result `r`.
    pub open spec fn status_update_result(
        &self,
        old: &Self,
        id: i64,
        status: GmMessageStatus,
        error: Option<Seq<char>>,
        now: i64,
        r: Result<(), GmError>,
    ) -> bool {
        let p = position_of_id(old.outbox_view(), id);
        if p >= 0 {
            &&& r is Ok
            &&& self.outbox_view() == old.outbox_view().update(
                p,
                item_with_status(old.outbox_view()[p], status, error, now),
            )
            &&& self.same_except_outbox(old)
            &&& self.next_id() == old.next_id()
            &&& self.pending_view() == (GmPendingWrites { outbox: true, ..old.pending_view() })
        } else {
            &&& r matches Err(GmError::DatabaseError { message }) && message@
                == "Outbox item not found: "@ + decimal_int(id as int)
            &&& *self == *old
        }
    }

    /// Removes every outbox item with id `id`.
    pub fn remove_from_outbox(&mut self, id: i64) -> (r: Result<(), GmError>)
        requires
            old(self).wf(),
        ensures
            final(self).wf(),
            r is Ok,
            final(self).outbox_view() == without_id(old(self).outbox_view(), id),
            final(self).same_except_outbox(old(self)),
            final(self).next_id() == old(self).next_id(),
            final(self).pending_view() == (GmPendingWrites {
                outbox: true,
                ..old(self).pending_view()
            }),
    {
        let ghost all = self.outbox_view();
        let mut kept: Vec<GmOutboxItem> = Vec::new();
        let mut rest: Vec<GmOutboxItem> = Vec::new();
        std::mem::swap(&mut rest, &mut self.outbox);
        let mut i: usize = 0;
        let n = rest.len();
        proof {
            assert(all.take(0) =~= Seq::<GmOutboxItemView>::empty());
        }
        while 0 < rest.len()
            invariant
                n == all.len(),
                i + rest@.len() == n,
                views(rest@) == all.skip(i as int),
                views(kept@) == without_id(all.take(i as int), id),
            decreases rest@.len(),
        {
            let ghost before = rest@;
            let item = rest.remove(0);
            let ghost prev = kept@;
            proof {
                assert(views(before)[0] == item@);
                assert(all[i as int] == item@);
                assert(all.take(i as int + 1).drop_last() =~= all.take(i as int));
                assert(all.take(i as int + 1).last() == item@);
            }
            if item.id != id {
                kept.push(item);
                proof {
                    assert(views(kept@) =~= views(prev).push(item@));
                }
            }
            i = i + 1;
            proof {
                assert forall|j: int| 0 <= j < rest@.len() implies views(rest@)[j] == all.skip(
                    i as int,
                )[j] by {
                    assert(rest@[j] == before[j + 1]);
                    assert(views(before)[j + 1] == all.skip(i as int - 1)[j + 1]);
                }
                assert(views(rest@) =~= all.skip(i as int));
            }
        }
        proof {
            assert(all.take(n as int) =~= all);
        }
        self.outbox = kept;
        self.pending.outbox = true;
        Ok(())
    }

    /// Whether counting one more attempt of the item with id `id` stays in range.
    pub fn attempt_fits(&self, id: i64) -> (r: bool)
        ensures
            r == attempt_in_range(self.outbox_view(), id),
    {
        match self.find_outbox_position(id) {
            Some(i) => {
                proof {
                    assert(self.outbox_view()[i as int] == self.outbox@[i as int]@);
                }
                self.outbox[i].attempts < u32::MAX
            },
            None => true,
        }
    }

    /// The id the next item added to the outbox gets.
    pub fn next_outbox_id(&self) -> (r: i64)
        ensures
            r == self.next_id(),
    {
        self.next_outbox_id
    }

    /// Number of items in the outbox.
    pub fn get_outbox_size(&self) -> (r: usize)
        ensures
            r == self.outbox_view().len(),
    {
        self.outbox.len()
    }

    // ============= CURSOR OPERATIONS =============

    /// Records the sync cursor of a thread, synced at time `now`.
    pub fn update_cursor_at(&mut self, remote_thread_id: &str, cursor: &str, now: i64) -> (r: Result<
        (),
        GmError,
    >)
        requires
            old(self).wf(),
        ensures
            final(self).wf(),
            r is Ok,
            final(self).cursors_view() == old(self).cursors_view().insert(
                remote_thread_id@,
                cursor_record(remote_thread_id@, cursor@, now),
            ),
            final(self).same_except_cursors(old(self)),
            final(self).pending_view() == (GmPendingWrites {
                cursors: true,
                ..old(self).pending_view()
            }),
    {
        let record = GmSyncCursor {
            remote_thread_id: owned(remote_thread_id),
            cursor: owned(cursor),
            synced_at: now,
        };
        put_keyed(&mut self.cursors, record);
        self.pending.cursors = true;
        Ok(())
    }

    /// Records the sync cursor of a thread, synced now.
    pub fn update_cursor(&mut self, remote_thread_id: &str, cursor: &str) -> (r: Result<(), GmError>)
        requires
            old(self).wf(),
        ensures
            final(self).wf(),
            r is Ok,
            exists|now: i64|
                final(self).cursors_view() == old(self).cursors_view().insert(
                    remote_thread_id@,
                    #[trigger] cursor_record(remote_thread_id@, cursor@, now),
                ),
            final(self).same_except_cursors(old(self)),
            final(self).pending_view() == (GmPendingWrites {
                cursors: true,
                ..old(self).pending_view()
            }),
    {
        let now = current_timestamp_millis();
        self.update_cursor_at(remote_thread_id, cursor, now)
    }

    /// The sync cursor of a thread.
    pub fn get_cursor(&self, remote_thread_id: &str) -> (r: Option<String>)
        requires
            self.wf(),
        ensures
            r.deep_view() == if self.cursors_view().contains_key(remote_thread_id@) {
                Some(self.cursors_view()[remote_thread_id@].cursor)
            } else {
                None
            },
    {
        let key = owned(remote_thread_id);
        match find_key(&self.cursors, &key) {
            Some(i) => {
                proof {
                    lemma_keyed_lookup(self.cursors@, i as int);
                }
                Some(self.cursors[i].cursor.clone())
            },
            None => None,
        }
    }

    // ============= PERSISTENCE =============

    /// Replaces each part of the store for which `stored` holds data; records
    /// with a repeated key count once, the later one winning.
    pub fn load_all(&mut self, stored: GmStoredData)
        requires
            old(self).wf(),
        ensures
            final(self).wf(),
            final(self).pending_view() == old(self).pending_view(),
            final(self).threads_view() == match stored.threads {
                Some(v) => insert_all(Map::<Seq<char>, GmThreadSummaryView>::empty(), v@),
                None => old(self).threads_view(),
            },
            final(self).messages_view() == match stored.messages {
                Some(v) => insert_all(Map::<Seq<char>, GmMessageView>::empty(), v.0@),
                None => old(self).messages_view(),
            },
            final(self).thread_index_view() == match stored.messages {
                Some(v) => insert_all(Map::<Seq<char>, Seq<Seq<char>>>::empty(), v.1@),
                None => old(self).thread_index_view(),
            },
            final(self).outbox_view() == match stored.outbox {
                Some(v) => views(v.0@),
                None => old(self).outbox_view(),
            },
            final(self).next_id() == match stored.outbox {
                Some(v) => v.1,
                None => old(self).next_id(),
            },
            final(self).cursors_view() == match stored.cursors {
                Some(v) => insert_all(Map::<Seq<char>, GmSyncCursorView>::empty(), v@),
                None => old(self).cursors_view(),
            },
    {
        let GmStoredData { threads, messages, outbox, cursors } = stored;
        if let Some(v) = threads {
            self.threads = collect_keyed(v);
        }
        if let Some((m, by_thread)) = messages {
            self.messages = collect_keyed(m);
            self.messages_by_thread = collect_keyed(by_thread);
        }
        if let Some((items, next_id)) = outbox {
            self.outbox = items;
            self.next_outbox_id = next_id;
        }
        if let Some(v) = cursors {
            self.cursors = collect_keyed(v);
        }
    }

    /// Empties the store (for logout); the next outbox id becomes 1 and every
    /// part is marked for saving.
    pub fn clear_all(&mut self) -> (r: Result<(), GmError>)
        ensures
            final(self).wf(),
            r is Ok,
            final(self).threads_view() == Map::<Seq<char>, GmThreadSummaryView>::empty(),
            final(self).thread_order() == Seq::<GmThreadSummaryView>::empty(),
            final(self).messages_view() == Map::<Seq<char>, GmMessageView>::empty(),
            final(self).thread_index_view() == Map::<Seq<char>, Seq<Seq<char>>>::empty(),
            final(self).outbox_view() == Seq::<GmOutboxItemView>::empty(),
            final(self).next_id() == 1,
            final(self).cursors_view() == Map::<Seq<char>, GmSyncCursorView>::empty(),
            final(self).pending_view() == (GmPendingWrites {
                threads: true,
                messages: true,
                outbox: true,
                cursors: true,
            }),
    {
        self.threads = Vec::new();
        self.messages = Vec::new();
        self.messages_by_thread = Vec::new();
        self.outbox = Vec::new();
        self.next_outbox_id = 1;
        self.cursors = Vec::new();
        self.pending = GmPendingWrites { threads: true, messages: true, outbox: true, cursors: true };
        proof {
            lemma_keyed_empty(self.threads@);
            lemma_keyed_empty(self.messages@);
            lemma_keyed_empty(self.messages_by_thread@);
            lemma_keyed_empty(self.cursors@);
            assert(views(self.threads@) =~= Seq::<GmThreadSummaryView>::empty());
            assert(views(self.outbox@) =~= Seq::<GmOutboxItemView>::empty());
        }
        Ok(())
    }

    /// Hands out the parts changed since the last call and marks them saved.
    pub fn take_pending_writes(&mut self) -> (r: GmPendingWrites)
        requires
            old(self).wf(),
        ensures
            final(self).wf(),
            r == old(self).pending_view(),
            final(self).pending_view() == (GmPendingWrites {
                threads: false,
                messages: false,
                outbox: false,
                cursors: false,
            }),
            final(self).same_data(old(self)),
    {
        let r = self.pending;
        self.pending = GmPendingWrites { threads: false, messages: false, outbox: false, cursors: false };
        r
    }

    /// Copies of the stored threads, in the store's order.
    pub fn threads_snapshot(&self) -> (r: Vec<GmThreadSummary>)
        requires
            self.wf(),
        ensures
            views(r@) == self.thread_order(),
            keys_unique(r@),
            keyed_map(r@) == self.threads_view(),
    {
        let t = duplicate_all(&self.threads);
        proof {
            assert(views(t@).len() == t@.len() && views(self.threads@).len() == self.threads@.len());
            assert forall|i: int| 0 <= i < self.threads@.len() implies #[trigger] t@[i].key_view()
                == self.threads@[i].key_view() && t@[i]@ == self.threads@[i]@ by {
                assert(views(t@)[i] == views(self.threads@)[i]);
            }
            lemma_keyed_same(self.threads@, t@);
        }
        t
    }

    /// Copies of the stored messages and of the per-thread message indexes.
    pub fn messages_snapshot(&self) -> (r: (Vec<GmMessage>, Vec<GmThreadIndex>))
        requires
            self.wf(),
        ensures
            keys_unique(r.0@),
            keyed_map(r.0@) == self.messages_view(),
            keys_unique(r.1@),
            keyed_map(r.1@) == self.thread_index_view(),
    {
        let m = duplicate_all(&self.messages);
        let t = duplicate_indexes(&self.messages_by_thread);
        proof {
            assert(views(m@).len() == m@.len() && views(self.messages@).len() == self.messages@.len());
            assert forall|i: int| 0 <= i < self.messages@.len() implies #[trigger] m@[i].key_view()
                == self.messages@[i].key_view() && m@[i]@ == self.messages@[i]@ by {
                assert(views(m@)[i] == views(self.messages@)[i]);
            }
            lemma_keyed_same(self.messages@, m@);
            lemma_keyed_same(self.messages_by_thread@, t@);
        }
        (m, t)
    }

    /// Copies of the outbox items, oldest first, with the next outbox id.
    pub fn outbox_snapshot(&self) -> (r: (Vec<GmOutboxItem>, i64))
        ensures
            views(r.0@) == self.outbox_view(),
            r.1 == self.next_id(),
    {
        (duplicate_all(&self.outbox), self.next_outbox_id)
    }

    /// Copies of the sync cursors.
    pub fn cursors_snapshot(&self) -> (r: Vec<GmSyncCursor>)
        requires
            self.wf(),
        ensures
            keys_unique(r@),
            keyed_map(r@) == self.cursors_view(),
    {
        let c = duplicate_all(&self.cursors);
        proof {
            assert(views(c@).len() == c@.len() && views(self.cursors@).len() == self.cursors@.len());
            assert forall|i: int| 0 <= i < self.cursors@.len() implies #[trigger] c@[i].key_view()
                == self.cursors@[i].key_view() && c@[i]@ == self.cursors@[i]@ by {
                assert(views(c@)[i] == views(self.cursors@)[i]);
            }
            lemma_keyed_same(self.cursors@, c@);
        }
        c
    }
}

} // verus!
