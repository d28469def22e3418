//! The app-facing store of thread, message and outbox mappings, keyed by the
//! remote ids, with auto-increment local ids.

use crate::keyed::{
    collect_keyed, duplicate_all, find_key, has_key, insert_all, keyed_map, keys_unique,
    lemma_keyed_empty, lemma_keyed_lookup, lemma_keyed_push, lemma_keyed_update, views, Keyed,
};
use crate::models::{GMMessage, GMOutboxItem, GMThread};
use crate::sorting::{sort_desc, sort_desc_exec, SortKey};
use crate::text::owned;
use vstd::prelude::*;

verus! {

/// What a stored mapping becomes after an upsert of `incoming`: the stored
/// local id is kept, everything else is taken from `incoming`.
pub open spec fn thread_replaced(stored: GMThread, incoming: GMThread) -> GMThread {
    GMThread { id: stored.id, ..incoming }
}

/// A new mapping with local id `id`.
pub open spec fn thread_numbered(incoming: GMThread, id: i64) -> GMThread {
    GMThread { id: Some(id), ..incoming }
}

pub open spec fn message_replaced(stored: GMMessage, incoming: GMMessage) -> GMMessage {
    GMMessage { id: stored.id, ..incoming }
}

pub open spec fn message_numbered(incoming: GMMessage, id: i64) -> GMMessage {
    GMMessage { id: Some(id), ..incoming }
}

/// The mappings of `s` that belong to thread `thread` and are older than
/// `before` (all of them when there is no bound), in order.
pub open spec fn thread_messages(s: Seq<GMMessage>, thread: Seq<char>, before: Option<i64>) -> Seq<
    GMMessage,
>
    decreases s.len(),
{
    if s.len() == 0 {
        Seq::empty()
    } else {
        let prev = thread_messages(s.drop_last(), thread, before);
        let m = s.last();
        let older = match before {
            Some(ts) => m.timestamp < ts,
            None => true,
        };
        if m.remote_thread_id@ == thread && older {
            prev.push(m)
        } else {
            prev
        }
    }
}

/// A listing of a thread's messages: newest first (equal times in store
/// order), at most `limit`.
pub open spec fn message_listing(
    s: Seq<GMMessage>,
    thread: Seq<char>,
    limit: usize,
    before: Option<i64>,
) -> Seq<GMMessage> {
    let all = sort_desc(thread_messages(s, thread, before), |m: GMMessage| m.timestamp as int);
    if (limit as int) < all.len() {
        all.take(limit as int)
    } else {
        all
    }
}

/// Everything the store holds, as saved and restored.
pub struct GMLocalDbData {
    pub threads: Vec<GMThread>,
    pub messages: Vec<GMMessage>,
    pub outbox: Vec<GMOutboxItem>,
    pub next_id: i64,
    pub last_sync_time: Option<i64>,
}

/// Store of thread, message and outbox mappings.
pub struct GMLocalDb {
    threads: Vec<GMThread>,
    messages: Vec<GMMessage>,
    outbox: Vec<GMOutboxItem>,
    next_id: i64,
    last_sync_time: Option<i64>,
}

impl GMLocalDb {
    pub closed spec fn wf(&self) -> bool {
        &&& keys_unique(self.threads@)
        &&& keys_unique(self.messages@)
    }

    /// Thread mappings by remote thread id.
    pub closed spec fn threads_view(&self) -> Map<Seq<char>, GMThread> {
        keyed_map(self.threads@)
    }

    /// Thread mappings in the store's order.
    pub closed spec fn thread_order(&self) -> Seq<GMThread> {
        self.threads@
    }

    /// Message mappings by remote message id.
    pub closed spec fn messages_view(&self) -> Map<Seq<char>, GMMessage> {
        keyed_map(self.messages@)
    }

    /// Message mappings in the store's order.
    pub closed spec fn message_order(&self) -> Seq<GMMessage> {
        self.messages@
    }

    /// The outbox, oldest first.
    pub closed spec fn outbox_view(&self) -> Seq<GMOutboxItem> {
        self.outbox@
    }

    /// The local id that the next new mapping or outbox item receives.
    pub closed spec fn next_local_id(&self) -> i64 {
        self.next_id
    }

    /// When the last sync completed.
    pub closed spec fn last_sync(&self) -> Option<i64> {
        self.last_sync_time
    }

    pub fn last_sync_time(&self) -> (r: Option<i64>)
        ensures
            r == self.last_sync(),
    {
        self.last_sync_time
    }

    /// Records when the last sync completed.
    pub fn set_last_sync_time(&mut self, at: Option<i64>)
        ensures
            final(self).last_sync() == at,
            final(self).wf() == old(self).wf(),
            final(self).threads_view() == old(self).threads_view(),
            final(self).thread_order() == old(self).thread_order(),
            final(self).messages_view() == old(self).messages_view(),
            final(self).message_order() == old(self).message_order(),
            final(self).outbox_view() == old(self).outbox_view(),
            final(self).next_local_id() == old(self).next_local_id(),
    {
        self.last_sync_time = at;
    }

    /// An empty store; local ids start at 1.
    pub fn new() -> (r: Self)
        ensures
            r.wf(),
            r.threads_view() == Map::<Seq<char>, GMThread>::empty(),
            r.thread_order() == Seq::<GMThread>::empty(),
            r.messages_view() == Map::<Seq<char>, GMMessage>::empty(),
            r.message_order() == Seq::<GMMessage>::empty(),
            r.outbox_view() == Seq::<GMOutboxItem>::empty(),
            r.next_local_id() == 1,
            r.last_sync() is None,
    {
        let r = GMLocalDb {
            threads: Vec::new(),
            messages: Vec::new(),
            outbox: Vec::new(),
            next_id: 1,
            last_sync_time: None,
        };
        proof {
            lemma_keyed_empty(r.threads@);
            lemma_keyed_empty(r.messages@);
        }
        r
    }

    /// Upserts a thread mapping by remote thread id and returns what is stored:
    /// a known mapping keeps its local id and takes everything else from
    /// `thread`; a new one gets the next local id.
    pub fn upsert_thread(&mut self, thread: GMThread) -> (r: GMThread)
        requires
            old(self).wf(),
            old(self).next_local_id() < i64::MAX,
        ensures
            final(self).wf(),
            ({
                let k = thread.remote_thread_id@;
                if old(self).threads_view().contains_key(k) {
                    &&& r == thread_replaced(old(self).threads_view()[k], thread)
                    &&& final(self).next_local_id() == old(self).next_local_id()
                } else {
                    &&& r == thread_numbered(thread, old(self).next_local_id())
                    &&& final(self).next_local_id() == old(self).next_local_id() + 1
                }
            }),
            final(self).threads_view() == old(self).threads_view().insert(thread.remote_thread_id@, r),
            final(self).messages_view() == old(self).messages_view(),
            final(self).message_order() == old(self).message_order(),
            final(self).outbox_view() == old(self).outbox_view(),
            final(self).last_sync() == old(self).last_sync(),
    {
        match find_key(&self.threads, &thread.remote_thread_id) {
            Some(i) => {
                proof {
                    lemma_keyed_lookup(self.threads@, i as int);
                }
                let mut stored = thread;
                stored.id = self.threads[i].id;
                let r = stored.clone();
                proof {
                    lemma_keyed_update(self.threads@, i as int, stored);
                }
                self.threads[i] = stored;
                r
            },
            None => {
                let mut stored = thread;
                stored.id = Some(self.next_id);
                self.next_id = self.next_id + 1;
                let r = stored.clone();
                proof {
                    lemma_keyed_push(self.threads@, stored);
                }
                self.threads.push(stored);
                r
            },
        }
    }

    /// Upserts a message mapping by remote message id and returns what is
    /// stored: a known mapping keeps its local id and takes everything else
    /// from `message`; a new one gets the next local id.
    pub fn upsert_message(&mut self, message: GMMessage) -> (r: GMMessage)
        requires
            old(self).wf(),
            old(self).next_local_id() < i64::MAX,
        ensures
            final(self).wf(),
            ({
                let k = message.remote_message_id@;
                if old(self).messages_view().contains_key(k) {
                    &&& r == message_replaced(old(self).messages_view()[k], message)
                    &&& final(self).next_local_id() == old(self).next_local_id()
                    &&& exists|i: int|
                        0 <= i < old(self).message_order().len()
                            && old(self).message_order()[i].remote_message_id@ == k
                            && final(self).message_order() == old(self).message_order().update(i, r)
                } else {
                    &&& r == message_numbered(message, old(self).next_local_id())
                    &&& final(self).next_local_id() == old(self).next_local_id() + 1
                    &&& final(self).message_order() == old(self).message_order().push(r)
                }
            }),
            final(self).messages_view() == old(self).messages_view().insert(
                message.remote_message_id@,
                r,
            ),
            final(self).threads_view() == old(self).threads_view(),
            final(self).thread_order() == old(self).thread_order(),
            final(self).outbox_view() == old(self).outbox_view(),
            final(self).last_sync() == old(self).last_sync(),
    {
        match find_key(&self.messages, &message.remote_message_id) {
            Some(i) => {
                proof {
                    lemma_keyed_lookup(self.messages@, i as int);
                }
                let mut stored = message;
                stored.id = self.messages[i].id;
                let r = stored.clone();
                proof {
                    lemma_keyed_update(self.messages@, i as int, stored);
                }
                self.messages[i] = stored;
                proof {
                    assert(old(self).message_order()[i as int].remote_message_id@ == message.remote_message_id@);
                    assert(self.message_order() == old(self).message_order().update(i as int, r));
                }
                r
            },
            None => {
                let mut stored = message;
                stored.id = Some(self.next_id);
                self.next_id = self.next_id + 1;
                let r = stored.clone();
                proof {
                    lemma_keyed_push(self.messages@, stored);
                }
                self.messages.push(stored);
                r
            },
        }
    }

    /// All thread mappings, in the store's order.
    pub fn list_threads(&self) -> (r: Vec<GMThread>)
        ensures
            r@ == self.thread_order(),
    {
        let r = duplicate_all(&self.threads);
        proof {
            assert(views(r@).len() == r@.len());
            assert(views(self.threads@).len() == self.threads@.len());
            assert forall|i: int| 0 <= i < r@.len() implies r@[i] == self.threads@[i] by {
                assert(views(r@)[i] == views(self.threads@)[i]);
            }
            assert(r@ =~= self.threads@);
        }
        r
    }

    /// Message mappings of a thread, newest first, at most `limit`; with
    /// `before`, only those strictly older than it.
    pub fn get_messages_for_thread(&self, remote_thread_id: &str, limit: usize, before: Option<i64>) -> (r:
        Vec<GMMessage>)
        ensures
            r@ == message_listing(self.message_order(), remote_thread_id@, limit, before),
    {
        let key = owned(remote_thread_id);
        let ghost all = self.messages@;
        let mut found: Vec<GMMessage> = Vec::new();
        let mut i: usize = 0;
        while i < self.messages.len()
            invariant
                i <= all.len(),
                all == self.messages@,
                key@ == remote_thread_id@,
                found@ == thread_messages(all.take(i as int), remote_thread_id@, before),
            decreases all.len() - i,
        {
            let m = &self.messages[i];
            proof {
                assert(all.take(i as int + 1).drop_last() =~= all.take(i as int));
                assert(all.take(i as int + 1).last() == *m);
            }
            let older = match before {
                Some(ts) => m.timestamp < ts,
                None => true,
            };
            if m.remote_thread_id.eq(&key) && older {
                found.push(m.clone());
            }
            i = i + 1;
        }
        proof {
            assert(all.take(all.len() as int) =~= all);
            assert(views(found@) =~= found@);
        }
        let mut sorted = sort_desc_exec(found);
        proof {
            assert((|v: GMMessage| <GMMessage as SortKey>::view_key(v)) =~= (|m: GMMessage|
                m.timestamp as int));
            assert(views(sorted@) =~= sorted@);
        }
        let ghost full = sorted@;
        sorted.truncate(limit);
        sorted
    }

    /// Queues an item with the next local id and returns what was queued.
    pub fn add_to_outbox(&mut self, item: GMOutboxItem) -> (r: GMOutboxItem)
        requires
            old(self).next_local_id() < i64::MAX,
        ensures
            r == (GMOutboxItem { id: Some(old(self).next_local_id()), ..item }),
            final(self).outbox_view() == old(self).outbox_view().push(r),
            final(self).next_local_id() == old(self).next_local_id() + 1,
            final(self).threads_view() == old(self).threads_view(),
            final(self).thread_order() == old(self).thread_order(),
            final(self).messages_view() == old(self).messages_view(),
            final(self).message_order() == old(self).message_order(),
            final(self).last_sync() == old(self).last_sync(),
            final(self).wf() == old(self).wf(),
    {
        let mut stored = item;
        stored.id = Some(self.next_id);
        self.next_id = self.next_id + 1;
        let r = stored.clone();
        self.outbox.push(stored);
        r
    }

    /// The local id that the next new mapping or outbox item receives.
    pub fn next_id(&self) -> (r: i64)
        ensures
            r == self.next_local_id(),
    {
        self.next_id
    }

    /// Number of queued items.
    pub fn outbox_size(&self) -> (r: usize)
        ensures
            r == self.outbox_view().len(),
    {
        self.outbox.len()
    }

    /// Number of thread mappings.
    pub fn thread_count(&self) -> (r: usize)
        ensures
            r == self.thread_order().len(),
    {
        self.threads.len()
    }

    /// Number of message mappings.
    pub fn message_count(&self) -> (r: usize)
        ensures
            r == self.message_order().len(),
    {
        self.messages.len()
    }

    /// Links a thread mapping to a local chat; `false` when the thread is unknown.
    pub fn link_thread_to_chat(&mut self, remote_thread_id: &str, local_chat_guid: String) -> (r: bool)
        requires
            old(self).wf(),
        ensures
            final(self).wf(),
            r == old(self).threads_view().contains_key(remote_thread_id@),
            final(self).threads_view() == if r {
                old(self).threads_view().insert(
                    remote_thread_id@,
                    GMThread {
                        local_chat_guid: Some(local_chat_guid),
                        ..old(self).threads_view()[remote_thread_id@]
                    },
                )
            } else {
                old(self).threads_view()
            },
            final(self).messages_view() == old(self).messages_view(),
            final(self).message_order() == old(self).message_order(),
            final(self).outbox_view() == old(self).outbox_view(),
            final(self).next_local_id() == old(self).next_local_id(),
            final(self).last_sync() == old(self).last_sync(),
    {
        let key = owned(remote_thread_id);
        match find_key(&self.threads, &key) {
            Some(i) => {
                proof {
                    lemma_keyed_lookup(self.threads@, i as int);
                }
                let mut t = self.threads[i].clone();
                t.local_chat_guid = Some(local_chat_guid);
                proof {
                    lemma_keyed_update(self.threads@, i as int, t);
                }
                self.threads[i] = t;
                true
            },
            None => false,
        }
    }

    /// Links a message mapping to a local message; `false` when the message is unknown.
    pub fn link_message_to_local(&mut self, remote_message_id: &str, local_message_guid: String) -> (r:
        bool)
        requires
            old(self).wf(),
        ensures
            final(self).wf(),
            r == old(self).messages_view().contains_key(remote_message_id@),
            final(self).messages_view() == if r {
                old(self).messages_view().insert(
                    remote_message_id@,
                    GMMessage {
                        local_message_guid: Some(local_message_guid),
                        ..old(self).messages_view()[remote_message_id@]
                    },
                )
            } else {
                old(self).messages_view()
            },
            final(self).threads_view() == old(self).threads_view(),
            final(self).thread_order() == old(self).thread_order(),
            final(self).outbox_view() == old(self).outbox_view(),
            final(self).next_local_id() == old(self).next_local_id(),
            final(self).last_sync() == old(self).last_sync(),
    {
        let key = owned(remote_message_id);
        match find_key(&self.messages, &key) {
            Some(i) => {
                proof {
                    lemma_keyed_lookup(self.messages@, i as int);
                }
                let mut m = self.messages[i].clone();
                m.local_message_guid = Some(local_message_guid);
                proof {
                    lemma_keyed_update(self.messages@, i as int, m);
                }
                self.messages[i] = m;
                true
            },
            None => false,
        }
    }

    /// Empties the store (for logout); local ids start over at 1.
    pub fn clear(&mut self)
        ensures
            final(self).wf(),
            final(self).threads_view() == Map::<Seq<char>, GMThread>::empty(),
            final(self).thread_order() == Seq::<GMThread>::empty(),
            final(self).messages_view() == Map::<Seq<char>, GMMessage>::empty(),
            final(self).message_order() == Seq::<GMMessage>::empty(),
            final(self).outbox_view() == Seq::<GMOutboxItem>::empty(),
            final(self).next_local_id() == 1,
            final(self).last_sync() is None,
    {
        *self = GMLocalDb::new();
    }

    /// Everything the store holds, for saving.
    pub fn to_data(&self) -> (r: GMLocalDbData)
        ensures
            r.threads@ == self.thread_order(),
            r.messages@ == self.message_order(),
            r.outbox@ == self.outbox_view(),
            r.next_id == self.next_local_id(),
            r.last_sync_time == self.last_sync(),
    {
        let threads = duplicate_all(&self.threads);
        let messages = duplicate_all(&self.messages);
        let outbox = duplicate_all(&self.outbox);
        proof {
            assert(views(threads@).len() == threads@.len() && views(self.threads@).len() == self.threads@.len());
            assert forall|i: int| 0 <= i < threads@.len() implies threads@[i] == self.threads@[i] by {
                assert(views(threads@)[i] == views(self.threads@)[i]);
            }
            assert(threads@ =~= self.threads@);
            assert(views(messages@).len() == messages@.len() && views(self.messages@).len() == self.messages@.len());
            assert forall|i: int| 0 <= i < messages@.len() implies messages@[i] == self.messages@[i] by {
                assert(views(messages@)[i] == views(self.messages@)[i]);
            }
            assert(messages@ =~= self.messages@);
            assert(views(outbox@).len() == outbox@.len() && views(self.outbox@).len() == self.outbox@.len());
            assert forall|i: int| 0 <= i < outbox@.len() implies outbox@[i] == self.outbox@[i] by {
                assert(views(outbox@)[i] == views(self.outbox@)[i]);
            }
            assert(outbox@ =~= self.outbox@);
        }
        GMLocalDbData {
            threads,
            messages,
            outbox,
            next_id: self.next_id,
            last_sync_time: self.last_sync_time,
        }
    }

    /// A store holding `data`; mappings with a repeated remote id count once,
    /// the later one winning.
    pub fn from_data(data: GMLocalDbData) -> (r: Self)
        ensures
            r.wf(),
            r.threads_view() == insert_all(Map::<Seq<char>, GMThread>::empty(), data.threads@),
            r.messages_view() == insert_all(Map::<Seq<char>, GMMessage>::empty(), data.messages@),
            r.outbox_view() == data.outbox@,
            r.next_local_id() == data.next_id,
            r.last_sync() == data.last_sync_time,
    {
        GMLocalDb {
            threads: collect_keyed(data.threads),
            messages: collect_keyed(data.messages),
            outbox: data.outbox,
            next_id: data.next_id,
            last_sync_time: data.last_sync_time,
        }
    }
}

} // verus!
