//! The outbox processor's decisions: which queued messages a pass sends, what
//! happens when an item ran out of retries, how a send outcome is recorded,
//! and manual retry and cancellation.

use crate::db::{
    attempt_in_range, due_items, is_due, item_requeued, item_with_status,
    lemma_position_of_id_bounds, lemma_without_id_update, position_of_id, queued_item, without_id,
    GmDatabase,
};
use crate::keyed::views;
use crate::records::{GmError, GmMessageStatus, GmOutboxItem, GmOutboxItemView, GmSendResult};
use crate::text::{concat_str, owned};
use vstd::prelude::*;

verus! {

/// Outbox processor configuration.
pub struct GmOutboxConfig {
    /// How often to check for pending messages (ms)
    pub check_interval_ms: u64,
    /// Maximum number of messages sent in one pass
    pub max_concurrent_sends: usize,
    /// Maximum retry attempts per message
    pub max_retry_attempts: u32,
}

impl Default for GmOutboxConfig {
    fn default() -> (r: Self)
        ensures
            r.check_interval_ms == 5_000,
            r.max_concurrent_sends == 1,
            r.max_retry_attempts == 5,
    {
        GmOutboxConfig { check_interval_ms: 5_000, max_concurrent_sends: 1, max_retry_attempts: 5 }
    }
}

/// Events reported by the outbox processor.
#[derive(Debug)]
pub enum GmOutboxEvent {
    /// A message send started
    Sending { local_message_uuid: String },
    /// A message was sent
    Sent { local_message_uuid: String, remote_message_id: String },
    /// A message send failed
    Failed { local_message_uuid: String, error: String, can_retry: bool },
    /// A message ran out of retries
    MaxRetriesReached { local_message_uuid: String },
}

/// What the processor does next in a pass.
#[derive(Debug)]
pub enum GmOutboxStep {
    /// The pass is over.
    Done,
    /// The item ran out of retries and was marked failed; report `event`.
    GaveUp { event: GmOutboxEvent },
    /// The item was marked as sending; report `event`, send `text` to
    /// `remote_thread_id`, and hand the outcome to [`GmOutboxPass::finish_send`].
    Send { id: i64, remote_thread_id: String, text: String, event: GmOutboxEvent },
}

/// Error text recorded when an item runs out of retries.
pub open spec fn max_retries_text() -> Seq<char> {
    "Max retries exceeded"@
}

/// The first `n` items of `s` (all of them when there are fewer).
pub open spec fn first_n<A>(s: Seq<A>, n: int) -> Seq<A> {
    if n < s.len() {
        s.take(n)
    } else {
        s
    }
}

/// A pass takes up at most `n` items, the first ones due.
pub proof fn law_pass_bounded<A>(s: Seq<A>, n: int)
    requires
        0 <= n,
    ensures
        first_n(s, n).len() <= n,
        first_n(s, n).len() <= s.len(),
        forall|i: int| 0 <= i < first_n(s, n).len() ==> #[trigger] first_n(s, n)[i] == s[i],
{
}

/// Position of the first item of `s` for local message `uuid`, or -1.
pub open spec fn position_of_uuid(s: Seq<GmOutboxItemView>, uuid: Seq<char>) -> int
    decreases s.len(),
{
    if s.len() == 0 {
        -1
    } else if s[0].local_message_uuid == uuid {
        0
    } else {
        let p = position_of_uuid(s.drop_first(), uuid);
        if p < 0 {
            -1
        } else {
            p + 1
        }
    }
}

proof fn lemma_position_of_uuid(s: Seq<GmOutboxItemView>, uuid: Seq<char>, i: int)
    requires
        0 <= i <= s.len(),
        forall|j: int| 0 <= j < i ==> s[j].local_message_uuid != uuid,
        i < s.len() ==> s[i].local_message_uuid == uuid,
    ensures
        position_of_uuid(s, uuid) == if i < s.len() {
            i
        } else {
            -1
        },
    decreases s.len(),
{
    if s.len() > 0 && i > 0 {
        let t = s.drop_first();
        assert forall|j: int| 0 <= j < i - 1 implies t[j].local_message_uuid != uuid by {
            assert(t[j] == s[j + 1]);
        }
        if i < s.len() {
            assert(t[i - 1] == s[i]);
        }
        lemma_position_of_uuid(t, uuid, i - 1);
    }
}

/// An item of a queue is found by its own id, at a position with that id.
proof fn lemma_position_of_id_found(s: Seq<GmOutboxItemView>, i: int)
    requires
        0 <= i < s.len(),
    ensures
        0 <= position_of_id(s, s[i].id) <= i,
        s[position_of_id(s, s[i].id)].id == s[i].id,
    decreases s.len(),
{
    if s[0].id != s[i].id {
        lemma_position_of_id_found(s.drop_first(), i - 1);
    }
}

/// The due items all come from the queue.
proof fn lemma_due_items_from(s: Seq<GmOutboxItemView>, now: i64, j: int)
    requires
        0 <= j < due_items(s, now).len(),
    ensures
        exists|i: int| 0 <= i < s.len() && #[trigger] s[i] == due_items(s, now)[j],
    decreases s.len(),
{
    let rest = s.drop_last();
    let d = due_items(rest, now);
    if is_due(s.last(), now) && j == d.len() {
        assert(s[s.len() - 1] == due_items(s, now)[j]);
    } else {
        lemma_due_items_from(rest, now, j);
        let i = choose|i: int| 0 <= i < rest.len() && #[trigger] rest[i] == d[j];
        assert(s[i] == rest[i]);
    }
}

/// One pass of the outbox processor over the items due when it started.
pub struct GmOutboxPass {
    items: Vec<GmOutboxItem>,
    position: usize,
    stopped: bool,
}

impl GmOutboxPass {
    /// The items the pass goes through, in order.
    pub closed spec fn items_view(&self) -> Seq<GmOutboxItemView> {
        views(self.items@)
    }

    /// How many items the pass has taken up so far.
    pub closed spec fn position(&self) -> int {
        self.position as int
    }

    /// Whether the pass was cut short by an authentication failure.
    pub closed spec fn stopped(&self) -> bool {
        self.stopped
    }

    pub closed spec fn wf(&self) -> bool {
        self.position <= self.items@.len()
    }

    /// Whether the pass has nothing more to do.
    pub open spec fn finished(&self) -> bool {
        self.stopped() || self.position() >= self.items_view().len()
    }

    /// Starts a pass at time `now`: nothing to do unless authenticated,
    /// otherwise the due items in queue order, at most `max_concurrent_sends`.
    pub fn begin(db: &GmDatabase, config: &GmOutboxConfig, authenticated: bool, now: i64) -> (r:
        Self)
        ensures
            r.wf(),
            r.position() == 0,
            !r.stopped(),
            r.items_view() == if authenticated {
                first_n(due_items(db.outbox_view(), now), config.max_concurrent_sends as int)
            } else {
                Seq::<GmOutboxItemView>::empty()
            },
    {
        if !authenticated {
            let r = GmOutboxPass { items: Vec::new(), position: 0, stopped: false };
            proof {
                assert(views(r.items@) =~= Seq::<GmOutboxItemView>::empty());
            }
            return r;
        }
        let mut items = db.get_pending_outbox_items_at(now);
        let ghost all = items@;
        items.truncate(config.max_concurrent_sends);
        proof {
            if (config.max_concurrent_sends as int) < all.len() {
                assert(views(items@) =~= views(all).take(config.max_concurrent_sends as int));
            }
        }
        GmOutboxPass { items, position: 0, stopped: false }
    }

    /// What taking up the next item asks of the store: when that item is
    /// given up, counting its attempt stays in range.
    pub open spec fn step_in_range(&self, db: &GmDatabase, config: &GmOutboxConfig) -> bool {
        !self.finished() && self.items_view()[self.position()].attempts >= config.max_retry_attempts
            ==> attempt_in_range(db.outbox_view(), self.items_view()[self.position()].id)
    }

    /// What recording the outcome of the item handed out last asks of the
    /// store: when the send `failed`, counting the failed attempt stays in range.
    pub open spec fn finish_in_range(&self, db: &GmDatabase, failed: bool) -> bool {
        failed ==> attempt_in_range(db.outbox_view(), self.items_view()[self.position() - 1].id)
    }

    /// Whether [`GmOutboxPass::next_step`] can be taken (see [`GmOutboxPass::step_in_range`]).
    pub fn can_step(&self, db: &GmDatabase, config: &GmOutboxConfig) -> (r: bool)
        requires
            self.wf(),
        ensures
            r == self.step_in_range(db, config),
    {
        if self.stopped || self.position >= self.items.len() {
            return true;
        }
        let item = &self.items[self.position];
        proof {
            assert(self.items_view()[self.position as int] == item@);
        }
        if item.attempts >= config.max_retry_attempts {
            db.attempt_fits(item.id)
        } else {
            true
        }
    }

    /// Whether [`GmOutboxPass::finish_send`] can record an outcome (see
    /// [`GmOutboxPass::finish_in_range`]).
    pub fn can_finish(&self, db: &GmDatabase, failed: bool) -> (r: bool)
        requires
            self.wf(),
            self.position() > 0,
        ensures
            r == self.finish_in_range(db, failed),
    {
        if !failed {
            return true;
        }
        let item = &self.items[self.position - 1];
        proof {
            assert(self.items_view()[self.position - 1] == item@);
        }
        db.attempt_fits(item.id)
    }

    /// The next item of the pass, taken up at time `now`. An item that
    /// already made `max_retry_attempts` attempts is given up for good: marked
    /// failed with "Max retries exceeded", the attempt counted, and a retry
    /// time that no clock reading before the largest timestamp reaches; any
    /// other is marked as sending and handed out.
    pub fn next_step(&mut self, db: &mut GmDatabase, config: &GmOutboxConfig, now: i64) -> (r:
        GmOutboxStep)
        requires
            old(self).wf(),
            old(db).wf(),
            old(self).step_in_range(old(db), config),
        ensures
            final(self).wf(),
            final(db).wf(),
            final(self).items_view() == old(self).items_view(),
            final(self).stopped() == old(self).stopped(),
            old(self).finished() ==> {
                &&& r is Done
                &&& final(self).position() == old(self).position()
                &&& *final(db) == *old(db)
            },
            !old(self).finished() ==> {
                let item = old(self).items_view()[old(self).position()];
                &&& final(self).position() == old(self).position() + 1
                &&& if item.attempts >= config.max_retry_attempts {
                    &&& r matches GmOutboxStep::GaveUp {
                        event: GmOutboxEvent::MaxRetriesReached { local_message_uuid },
                    } && local_message_uuid@ == item.local_message_uuid
                    &&& exists|st: GmMessageStatus, u: Result<(), GmError>|
                        {
                            &&& st matches GmMessageStatus::Failed { error } && error@
                                == max_retries_text()
                            &&& #[trigger] final(db).given_up_result(old(db), item.id, st, u)
                        }
                } else {
                    &&& r matches GmOutboxStep::Send {
                        id,
                        remote_thread_id,
                        text,
                        event: GmOutboxEvent::Sending { local_message_uuid },
                    } && id == item.id && remote_thread_id@ == item.remote_thread_id && text@
                        == item.text && local_message_uuid@ == item.local_message_uuid
                    &&& exists|u: Result<(), GmError>| #[trigger]
                        final(db).status_update_result(
                            old(db),
                            item.id,
                            GmMessageStatus::Sending,
                            None,
                            now,
                            u,
                        )
                }
            },
    {
        if self.stopped || self.position >= self.items.len() {
            return GmOutboxStep::Done;
        }
        let i = self.position;
        self.position = self.position + 1;
        let item = &self.items[i];
        proof {
            assert(self.items_view()[i as int] == item@);
        }
        if item.attempts >= config.max_retry_attempts {
            let status = GmMessageStatus::Failed { error: owned("Max retries exceeded") };
            let ghost st = status;
            let u = db.give_up_outbox_item(item.id, status);
            proof {
                assert(final(db).given_up_result(old(db), item@.id, st, u));
            }
            return GmOutboxStep::GaveUp {
                event: GmOutboxEvent::MaxRetriesReached {
                    local_message_uuid: item.local_message_uuid.clone(),
                },
            };
        }
        let u = db.update_outbox_status_at(item.id, GmMessageStatus::Sending, None, now);
        proof {
            assert(final(db).status_update_result(old(db), item@.id, GmMessageStatus::Sending, None, now, u));
        }
        GmOutboxStep::Send {
            id: item.id,
            remote_thread_id: item.remote_thread_id.clone(),
            text: item.text.clone(),
            event: GmOutboxEvent::Sending { local_message_uuid: item.local_message_uuid.clone() },
        }
    }

    /// Records the outcome of sending the item handed out last, at time `now`.
    /// A sent message is marked sent and leaves the outbox; a failure is
    /// recorded with its error text (scheduling a retry), and an
    /// authentication failure ends the pass.
    pub fn finish_send(
        &mut self,
        db: &mut GmDatabase,
        result: Result<String, GmError>,
        now: i64,
    ) -> (event: GmOutboxEvent)
        requires
            old(self).wf(),
            old(self).position() > 0,
            old(db).wf(),
            old(self).finish_in_range(old(db), result is Err),
        ensures
            final(self).wf(),
            final(db).wf(),
            final(self).items_view() == old(self).items_view(),
            final(self).position() == old(self).position(),
            final(self).stopped() == (old(self).stopped() || result matches Err(
                GmError::NotAuthenticated,
            )),
            ({
                let item = old(self).items_view()[old(self).position() - 1];
                match result {
                    Ok(remote_id) => {
                        &&& event matches GmOutboxEvent::Sent {
                            local_message_uuid,
                            remote_message_id,
                        } && local_message_uuid@ == item.local_message_uuid && remote_message_id
                            == remote_id
                        &&& final(db).outbox_view() == without_id(old(db).outbox_view(), item.id)
                        &&& final(db).same_except_outbox(old(db))
                        &&& final(db).next_id() == old(db).next_id()
                        &&& final(db).pending_view().outbox
                    },
                    Err(e) => {
                        &&& event matches GmOutboxEvent::Failed {
                            local_message_uuid,
                            error,
                            can_retry,
                        } && local_message_uuid@ == item.local_message_uuid && error@
                            == e.display_text() && can_retry == !(e is NotAuthenticated)
                        &&& exists|st: GmMessageStatus, u: Result<(), GmError>|
                            {
                                &&& st matches GmMessageStatus::Failed { error } && error@
                                    == e.display_text()
                                &&& #[trigger] final(db).status_update_outcome(
                                    old(db),
                                    item.id,
                                    st,
                                    Some(e.display_text()),
                                    now,
                                    u,
                                )
                            }
                    },
                }
            }),
    {
        let i = self.position - 1;
        let item = &self.items[i];
        proof {
            assert(self.items_view()[i as int] == item@);
        }
        match result {
            Ok(remote_id) => {
                let ghost before = db.outbox_view();
                let _ = db.update_outbox_status_at(item.id, GmMessageStatus::Sent, None, now);
                proof {
                    lemma_position_of_id_bounds(before, item@.id);
                    let p = position_of_id(before, item@.id);
                    if p >= 0 {
                        lemma_without_id_update(
                            before,
                            p,
                            item_with_status(before[p], GmMessageStatus::Sent, None, now),
                            item@.id,
                        );
                    }
                }
                let ghost mid = *db;
                proof {
                    GmDatabase::lemma_same_except_outbox_refl(old(db));
                }
                let _ = db.remove_from_outbox(item.id);
                proof {
                    GmDatabase::lemma_same_except_outbox_trans(old(db), &mid, db);
                }
                GmOutboxEvent::Sent {
                    local_message_uuid: item.local_message_uuid.clone(),
                    remote_message_id: remote_id,
                }
            },
            Err(e) => {
                let message = e.to_string();
                let status = GmMessageStatus::Failed { error: message.clone() };
                let ghost st = status;
                let u = db.update_outbox_status_at(item.id, status, Some(message.clone()), now);
                proof {
                    assert(final(db).status_update_outcome(old(db), item@.id, st, Some(e.display_text()), now, u));
                }
                let can_retry = match e {
                    GmError::NotAuthenticated => false,
                    _ => true,
                };
                if !can_retry {
                    self.stopped = true;
                }
                GmOutboxEvent::Failed {
                    local_message_uuid: item.local_message_uuid.clone(),
                    error: message,
                    can_retry,
                }
            },
        }
    }
}

/// Whether an outbox item can be put back in the queue by hand: it is queued
/// or failed (given up or waiting for its retry time).
pub open spec fn retryable(item: GmOutboxItemView) -> bool {
    item.status is Queued || item.status is Failed
}

/// Position of the first retryable item of `s` for local message `uuid`, or -1.
pub open spec fn position_of_retryable(s: Seq<GmOutboxItemView>, uuid: Seq<char>) -> int
    decreases s.len(),
{
    if s.len() == 0 {
        -1
    } else if s[0].local_message_uuid == uuid && retryable(s[0]) {
        0
    } else {
        let p = position_of_retryable(s.drop_first(), uuid);
        if p < 0 {
            -1
        } else {
            p + 1
        }
    }
}

proof fn lemma_position_of_retryable(s: Seq<GmOutboxItemView>, uuid: Seq<char>, i: int)
    requires
        0 <= i <= s.len(),
        forall|j: int| 0 <= j < i ==> !(s[j].local_message_uuid == uuid && retryable(#[trigger] s[j])),
        i < s.len() ==> s[i].local_message_uuid == uuid && retryable(s[i]),
    ensures
        position_of_retryable(s, uuid) == if i < s.len() {
            i
        } else {
            -1
        },
    decreases s.len(),
{
    if s.len() > 0 && i > 0 {
        let t = s.drop_first();
        assert forall|j: int| 0 <= j < i - 1 implies !(t[j].local_message_uuid == uuid && retryable(
            #[trigger] t[j],
        )) by {
            assert(t[j] == s[j + 1]);
        }
        if i < s.len() {
            assert(t[i - 1] == s[i]);
        }
        lemma_position_of_retryable(t, uuid, i - 1);
    }
}

/// Puts the first queued or failed outbox item for local message
/// `local_message_uuid` back in the queue (the user tapped "Retry"), whether
/// or not its retry time has come: queued, with its attempts, retry time and
/// error cleared, so it is due at once.
pub fn retry_outbox_message(db: &mut GmDatabase, local_message_uuid: &str) -> (r: Result<(), GmError>)
    requires
        old(db).wf(),
    ensures
        final(db).wf(),
        ({
            let s = old(db).outbox_view();
            let j = position_of_retryable(s, local_message_uuid@);
            if j < 0 {
                &&& r matches Err(GmError::DatabaseError { message }) && message@
                    == "Message not found in outbox: "@ + local_message_uuid@
                &&& *final(db) == *old(db)
            } else {
                final(db).outbox_item_changed(old(db), s[j].id, |x: GmOutboxItemView| item_requeued(x), r)
            }
        }),
{
    let (items, _) = db.outbox_snapshot();
    let ghost all = views(items@);
    let mut i: usize = 0;
    while i < items.len()
        invariant
            i <= items@.len(),
            all == views(items@),
            all == old(db).outbox_view(),
            *db == *old(db),
            db.wf(),
            forall|j: int|
                0 <= j < i ==> !(all[j].local_message_uuid == local_message_uuid@ && retryable(
                    #[trigger] all[j],
                )),
        decreases items@.len() - i,
    {
        let item = &items[i];
        proof {
            assert(all[i as int] == item@);
        }
        let status_ok = match item.status {
            GmMessageStatus::Queued => true,
            GmMessageStatus::Failed { .. } => true,
            _ => false,
        };
        if status_ok && str_eq_string(local_message_uuid, &item.local_message_uuid) {
            proof {
                lemma_position_of_retryable(all, local_message_uuid@, i as int);
            }
            return db.requeue_outbox_item(item.id);
        }
        i = i + 1;
    }
    proof {
        lemma_position_of_retryable(all, local_message_uuid@, items@.len() as int);
    }
    Err(
        GmError::DatabaseError {
            message: concat_str("Message not found in outbox: ", local_message_uuid),
        },
    )
}

/// Cancels the first item due at `now` for local message
/// `local_message_uuid`: it is marked cancelled and every item with its id
/// leaves the outbox.
pub fn cancel_outbox_message_at(db: &mut GmDatabase, local_message_uuid: &str, now: i64) -> (r: Result<
    (),
    GmError,
>)
    requires
        old(db).wf(),
    ensures
        final(db).wf(),
        ({
            let due = due_items(old(db).outbox_view(), now);
            let j = position_of_uuid(due, local_message_uuid@);
            if j < 0 {
                &&& r matches Err(GmError::DatabaseError { message }) && message@
                    == "Message not found in outbox: "@ + local_message_uuid@
                &&& *final(db) == *old(db)
            } else {
                &&& r is Ok
                &&& final(db).outbox_view() == without_id(old(db).outbox_view(), due[j].id)
                &&& final(db).same_except_outbox(old(db))
                &&& final(db).next_id() == old(db).next_id()
                &&& final(db).pending_view().outbox
            }
        }),
{
    let pending = db.get_pending_outbox_items_at(now);
    let ghost due = views(pending@);
    let ghost before = db.outbox_view();
    let mut i: usize = 0;
    while i < pending.len()
        invariant
            i <= pending@.len(),
            due == views(pending@),
            due == due_items(before, now),
            before == db.outbox_view(),
            *db == *old(db),
            db.wf(),
            forall|j: int| 0 <= j < i ==> due[j].local_message_uuid != local_message_uuid@,
        decreases pending@.len() - i,
    {
        let item = &pending[i];
        proof {
            assert(due[i as int] == item@);
        }
        if str_eq_string(local_message_uuid, &item.local_message_uuid) {
            proof {
                lemma_position_of_uuid(due, local_message_uuid@, i as int);
                lemma_due_items_from(before, now, i as int);
                let k = choose|k: int| 0 <= k < before.len() && #[trigger] before[k] == due[i as int];
                lemma_position_of_id_found(before, k);
            }
            let id = item.id;
            let u = db.update_outbox_status_at(id, GmMessageStatus::Cancelled, None, now);
            proof {
                let p = position_of_id(before, id);
                lemma_without_id_update(
                    before,
                    p,
                    item_with_status(before[p], GmMessageStatus::Cancelled, None, now),
                    id,
                );
            }
            let ghost mid = *db;
            let r = db.remove_from_outbox(id);
            proof {
                GmDatabase::lemma_same_except_outbox_trans(old(db), &mid, db);
            }
            return r;
        }
        i = i + 1;
    }
    proof {
        lemma_position_of_uuid(due, local_message_uuid@, pending@.len() as int);
    }
    Err(
        GmError::DatabaseError {
            message: concat_str("Message not found in outbox: ", local_message_uuid),
        },
    )
}

/// What an immediate send attempt leads to, given its outcome at time `now`:
/// success is reported as such; a failure that can be retried (anything but
/// an authentication failure) is queued in the outbox.
pub fn immediate_send_outcome(
    db: &mut GmDatabase,
    account_id: &str,
    remote_thread_id: &str,
    local_message_uuid: &str,
    text: &str,
    result: Result<String, GmError>,
    now: i64,
) -> (r: GmSendResult)
    requires
        old(db).wf(),
        result is Err && !(result matches Err(GmError::NotAuthenticated)) ==> old(db).next_id()
            < i64::MAX,
    ensures
        final(db).wf(),
        match result {
            Ok(remote_id) => {
                &&& r.success
                &&& r.remote_message_id == Some(remote_id)
                &&& r.error is None
                &&& !r.can_retry
                &&& *final(db) == *old(db)
            },
            Err(e) => {
                &&& !r.success
                &&& r.remote_message_id is None
                &&& r.error.deep_view() == Some(e.display_text())
                &&& r.can_retry == !(e is NotAuthenticated)
                &&& if r.can_retry {
                    &&& final(db).outbox_view() == old(db).outbox_view().push(
                        queued_item(
                            old(db).next_id(),
                            account_id@,
                            remote_thread_id@,
                            local_message_uuid@,
                            text@,
                            now,
                        ),
                    )
                    &&& final(db).next_id() == old(db).next_id() + 1
                    &&& final(db).same_except_outbox(old(db))
                    &&& final(db).pending_view().outbox
                } else {
                    *final(db) == *old(db)
                }
            },
        },
{
    match result {
        Ok(remote_id) => GmSendResult {
            success: true,
            remote_message_id: Some(remote_id),
            error: None,
            can_retry: false,
        },
        Err(e) => {
            let message = e.to_string();
            let can_retry = match e {
                GmError::NotAuthenticated => false,
                _ => true,
            };
            if can_retry {
                let _ = db.add_to_outbox_at(account_id, remote_thread_id, local_message_uuid, text, now);
            }
            GmSendResult { success: false, remote_message_id: None, error: Some(message), can_retry }
        },
    }
}

/// Whether a string slice and a string hold the same text.
fn str_eq_string(a: &str, b: &String) -> (r: bool)
    ensures
        r == (a@ == b@),
{
    let owned_a = owned(a);
    owned_a.eq(b)
}

} // verus!
