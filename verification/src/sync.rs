//! The sync loop's decisions: when to sync, how long to wait, how errors back
//! off, and how synced threads and messages enter the store.

use crate::db::{cursor_record, index_upserted, message_upserted, thread_upserted, GmDatabase};
use crate::models::{pow2, GMPairingState};
use crate::records::{
    GmError, GmMessage, GmMessageView, GmThreadSummary, GmThreadSummaryView,
};
use crate::keyed::views;
use vstd::prelude::*;

verus! {

/// Sync configuration.
pub struct GmSyncConfig {
    /// Interval between syncs while the app is in the foreground (ms)
    pub foreground_interval_ms: u64,
    /// Interval between syncs while the app is in the background (ms); 0 disables background sync
    pub background_interval_ms: u64,
    /// Number of consecutive errors after which the loop stops
    pub max_consecutive_errors: u32,
    /// Base delay of the exponential backoff on errors (ms)
    pub error_backoff_base_ms: u64,
    /// Longest backoff delay (ms)
    pub error_backoff_max_ms: u64,
}

impl Default for GmSyncConfig {
    fn default() -> (r: Self)
        ensures
            r.foreground_interval_ms == 15_000,
            r.background_interval_ms == 0,
            r.max_consecutive_errors == 5,
            r.error_backoff_base_ms == 5_000,
            r.error_backoff_max_ms == 300_000,
    {
        GmSyncConfig {
            foreground_interval_ms: 15_000,
            background_interval_ms: 0,
            max_consecutive_errors: 5,
            error_backoff_base_ms: 5_000,
            error_backoff_max_ms: 300_000,
        }
    }
}

/// Backoff before the next try after `errors` consecutive errors.
pub open spec fn sync_backoff_ms(config: GmSyncConfig, errors: nat) -> int {
    let grown = config.error_backoff_base_ms * pow2(errors);
    if grown < config.error_backoff_max_ms {
        grown
    } else {
        config.error_backoff_max_ms as int
    }
}

/// Whether the backoff after `errors` consecutive errors can be computed:
/// the doubling factor and its product with the base delay fit in `u64`.
pub open spec fn backoff_in_range(config: GmSyncConfig, errors: nat) -> bool {
    &&& errors < 64
    &&& config.error_backoff_base_ms * pow2(errors) <= u64::MAX
}

impl GmSyncConfig {
    /// The exponential backoff never leaves the range of `u64` before the
    /// loop stops.
    pub open spec fn valid(&self) -> bool {
        &&& self.max_consecutive_errors <= 64
        &&& self.max_consecutive_errors > 0 ==> self.error_backoff_base_ms * pow2(
            (self.max_consecutive_errors - 1) as nat,
        ) <= u64::MAX
    }

    /// Whether the configuration is [`GmSyncConfig::valid`].
    pub fn is_valid(&self) -> (r: bool)
        ensures
            r == self.valid(),
    {
        if self.max_consecutive_errors > 64 {
            return false;
        }
        if self.max_consecutive_errors == 0 {
            return true;
        }
        let mut n: u32 = 0;
        let mut value: u64 = self.error_backoff_base_ms;
        while n + 1 < self.max_consecutive_errors
            invariant
                n + 1 <= self.max_consecutive_errors <= 64,
                value == self.error_backoff_base_ms * pow2(n as nat),
            decreases self.max_consecutive_errors - n,
        {
            if value > u64::MAX / 2 {
                proof {
                    lemma_pow2_mono(n as nat + 1, (self.max_consecutive_errors - 1) as nat);
                    assert(pow2(n as nat + 1) == 2 * pow2(n as nat));
                    assert(self.error_backoff_base_ms * pow2(n as nat + 1) == 2 * value) by (nonlinear_arith)
                        requires
                            pow2(n as nat + 1) == 2 * pow2(n as nat),
                            value == self.error_backoff_base_ms * pow2(n as nat),
                    ;
                    assert(self.error_backoff_base_ms * pow2(n as nat + 1) <= self.error_backoff_base_ms
                        * pow2((self.max_consecutive_errors - 1) as nat)) by (nonlinear_arith)
                        requires
                            pow2(n as nat + 1) <= pow2((self.max_consecutive_errors - 1) as nat),
                    ;
                }
                return false;
            }
            proof {
                assert(pow2(n as nat + 1) == 2 * pow2(n as nat));
                assert(self.error_backoff_base_ms * pow2(n as nat + 1) == 2 * value) by (nonlinear_arith)
                    requires
                        pow2(n as nat + 1) == 2 * pow2(n as nat),
                        value == self.error_backoff_base_ms * pow2(n as nat),
                ;
            }
            value = value * 2;
            n = n + 1;
        }
        true
    }

    /// Whether the backoff after `errors` consecutive errors can be computed
    /// (see [`backoff_in_range`]).
    pub fn backoff_fits(&self, errors: u32) -> (r: bool)
        ensures
            r == backoff_in_range(*self, errors as nat),
    {
        if errors >= 64 {
            return false;
        }
        let mut n: u32 = 0;
        let mut value: u64 = self.error_backoff_base_ms;
        while n < errors
            invariant
                n <= errors < 64,
                value == self.error_backoff_base_ms * pow2(n as nat),
            decreases errors - n,
        {
            proof {
                assert(pow2(n as nat + 1) == 2 * pow2(n as nat));
                assert(self.error_backoff_base_ms * pow2(n as nat + 1) == 2 * value) by (nonlinear_arith)
                    requires
                        pow2(n as nat + 1) == 2 * pow2(n as nat),
                        value == self.error_backoff_base_ms * pow2(n as nat),
                ;
            }
            if value > u64::MAX / 2 {
                proof {
                    lemma_pow2_mono(n as nat + 1, errors as nat);
                    assert(self.error_backoff_base_ms * pow2(n as nat + 1) <= self.error_backoff_base_ms
                        * pow2(errors as nat)) by (nonlinear_arith)
                        requires
                            pow2(n as nat + 1) <= pow2(errors as nat),
                    ;
                }
                return false;
            }
            value = value * 2;
            n = n + 1;
        }
        true
    }
}

pub proof fn lemma_pow2_mono(a: nat, b: nat)
    requires
        a <= b,
    ensures
        1 <= pow2(a) <= pow2(b),
    decreases b,
{
    if b > 0 {
        if a < b {
            lemma_pow2_mono(a, (b - 1) as nat);
        } else {
            lemma_pow2_mono((a - 1) as nat, (b - 1) as nat);
        }
    }
}

proof fn lemma_pow2_63()
    ensures
        pow2(63) == 0x8000_0000_0000_0000,
{
    reveal_with_fuel(pow2, 64);
}

/// The default configuration is valid.
pub proof fn law_default_sync_config_valid()
    ensures
        (GmSyncConfig {
            foreground_interval_ms: 15_000,
            background_interval_ms: 0,
            max_consecutive_errors: 5,
            error_backoff_base_ms: 5_000,
            error_backoff_max_ms: 300_000,
        }).valid(),
{
    reveal_with_fuel(pow2, 5);
}

/// The error backoff never shrinks as errors add up and never exceeds the
/// configured longest delay.
pub proof fn law_sync_backoff_bounds(config: GmSyncConfig, a: nat, b: nat)
    requires
        a <= b,
    ensures
        sync_backoff_ms(config, a) <= sync_backoff_ms(config, b) <= config.error_backoff_max_ms,
{
    lemma_pow2_mono(a, b);
    assert(config.error_backoff_base_ms * pow2(a) <= config.error_backoff_base_ms * pow2(b)) by (nonlinear_arith)
        requires
            pow2(a) <= pow2(b),
            config.error_backoff_base_ms >= 0,
    ;
}

/// Events reported by the sync loop.
#[derive(Debug)]
pub enum GmSyncEvent {
    /// A sync started
    Started,
    /// A sync completed
    Completed { threads_updated: usize, messages_new: usize },
    /// A sync failed
    Failed { error: String },
    /// New messages arrived in a thread
    NewMessages { thread_id: String, count: usize },
    /// The session expired
    SessionExpired,
}

/// How the loop recovers from a failed sync.
#[derive(Debug, PartialEq, Eq, Structural)]
pub enum GmSyncRecovery {
    /// The session is no longer valid: mark it expired, report it, and stop the loop.
    SessionExpired,
    /// Too many errors in a row: stop the loop.
    Stop,
    /// Wait this long before going on.
    Backoff { ms: u64 },
}

/// Whether a sync should run: the session is paired and authenticated.
pub fn should_sync(pairing_state: GMPairingState, authenticated: bool) -> (r: bool)
    ensures
        r == (pairing_state == GMPairingState::Paired && authenticated),
{
    pairing_state == GMPairingState::Paired && authenticated
}

/// The sync loop's own state.
pub struct GmSyncState {
    running: bool,
    is_foreground: bool,
    consecutive_errors: u32,
    last_sync_at: i64,
    last_error: Option<String>,
}

impl GmSyncState {
    pub closed spec fn running(&self) -> bool {
        self.running
    }

    pub closed spec fn foreground(&self) -> bool {
        self.is_foreground
    }

    pub closed spec fn consecutive_errors(&self) -> u32 {
        self.consecutive_errors
    }

    pub closed spec fn last_sync_at(&self) -> i64 {
        self.last_sync_at
    }

    pub closed spec fn last_error(&self) -> Option<Seq<char>> {
        self.last_error.deep_view()
    }

    /// A stopped loop in the foreground, with no sync and no error yet.
    pub fn new() -> (r: Self)
        ensures
            !r.running(),
            r.foreground(),
            r.consecutive_errors() == 0,
            r.last_sync_at() == 0,
            r.last_error() is None,
    {
        GmSyncState {
            running: false,
            is_foreground: true,
            consecutive_errors: 0,
            last_sync_at: 0,
            last_error: None,
        }
    }

    /// Marks the loop running; returns whether it already was (then it must not start twice).
    pub fn start(&mut self) -> (was_running: bool)
        ensures
            was_running == old(self).running(),
            final(self).running(),
            final(self).foreground() == old(self).foreground(),
            final(self).consecutive_errors() == old(self).consecutive_errors(),
            final(self).last_sync_at() == old(self).last_sync_at(),
            final(self).last_error() == old(self).last_error(),
    {
        let was = self.running;
        self.running = true;
        was
    }

    /// Marks the loop stopped.
    pub fn stop(&mut self)
        ensures
            !final(self).running(),
            final(self).foreground() == old(self).foreground(),
            final(self).consecutive_errors() == old(self).consecutive_errors(),
            final(self).last_sync_at() == old(self).last_sync_at(),
            final(self).last_error() == old(self).last_error(),
    {
        self.running = false;
    }

    /// Records whether the app is in the foreground; returns whether it just
    /// came to the foreground, which calls for an immediate sync.
    pub fn set_foreground(&mut self, is_foreground: bool) -> (sync_now: bool)
        ensures
            sync_now == (!old(self).foreground() && is_foreground),
            final(self).foreground() == is_foreground,
            final(self).running() == old(self).running(),
            final(self).consecutive_errors() == old(self).consecutive_errors(),
            final(self).last_sync_at() == old(self).last_sync_at(),
            final(self).last_error() == old(self).last_error(),
    {
        let was_foreground = self.is_foreground;
        self.is_foreground = is_foreground;
        !was_foreground && is_foreground
    }

    pub fn is_running(&self) -> (r: bool)
        ensures
            r == self.running(),
    {
        self.running
    }

    pub fn get_last_sync_at(&self) -> (r: i64)
        ensures
            r == self.last_sync_at(),
    {
        self.last_sync_at
    }

    pub fn get_last_error(&self) -> (r: Option<String>)
        ensures
            r.deep_view() == self.last_error(),
    {
        crate::text::clone_opt_string(&self.last_error)
    }

    /// Number of failed syncs in a row since the last success.
    pub fn get_consecutive_errors(&self) -> (r: u32)
        ensures
            r == self.consecutive_errors(),
    {
        self.consecutive_errors
    }

    /// How long to wait between syncs: the foreground or the background
    /// interval (0 meaning: wait to be woken up).
    pub fn current_interval(&self, config: &GmSyncConfig) -> (r: u64)
        ensures
            r == if self.foreground() {
                config.foreground_interval_ms
            } else {
                config.background_interval_ms
            },
    {
        if self.is_foreground {
            config.foreground_interval_ms
        } else {
            config.background_interval_ms
        }
    }

    /// Records a successful sync at time `now` and reports it.
    pub fn on_sync_success(&mut self, now: i64, threads_updated: usize, messages_new: usize) -> (r:
        GmSyncEvent)
        ensures
            r == (GmSyncEvent::Completed { threads_updated, messages_new }),
            final(self).consecutive_errors() == 0,
            final(self).last_sync_at() == now,
            final(self).last_error() is None,
            final(self).running() == old(self).running(),
            final(self).foreground() == old(self).foreground(),
    {
        self.consecutive_errors = 0;
        self.last_sync_at = now;
        self.last_error = None;
        GmSyncEvent::Completed { threads_updated, messages_new }
    }

    /// Records a failed sync, returning the failure report and how to recover:
    /// an authentication failure stops the loop, and so does reaching the
    /// maximum number of consecutive errors; otherwise the wait doubles with
    /// each error, up to the longest delay. The backoff must be computable
    /// when it is used (see [`backoff_in_range`]).
    pub fn on_sync_failure(&mut self, config: &GmSyncConfig, error: &GmError) -> (r: (
        GmSyncEvent,
        GmSyncRecovery,
    ))
        requires
            old(self).consecutive_errors() < u32::MAX,
            !(error is NotAuthenticated) && old(self).consecutive_errors() + 1
                < config.max_consecutive_errors ==> backoff_in_range(
                *config,
                (old(self).consecutive_errors() + 1) as nat,
            ),
        ensures
            ({
                let count = old(self).consecutive_errors() + 1;
                &&& r.0 matches GmSyncEvent::Failed { error: text } && text@ == error.display_text()
                &&& final(self).last_error() == Some(error.display_text())
                &&& final(self).last_sync_at() == old(self).last_sync_at()
                &&& final(self).foreground() == old(self).foreground()
                &&& final(self).consecutive_errors() == count
                &&& if error is NotAuthenticated {
                    &&& r.1 == GmSyncRecovery::SessionExpired
                    &&& !final(self).running()
                } else if count >= config.max_consecutive_errors {
                    &&& r.1 == GmSyncRecovery::Stop
                    &&& !final(self).running()
                } else {
                    &&& r.1 == (GmSyncRecovery::Backoff {
                        ms: sync_backoff_ms(*config, count as nat) as u64,
                    })
                    &&& final(self).running() == old(self).running()
                }
            }),
    {
        let count = self.consecutive_errors + 1;
        self.consecutive_errors = count;
        let message = error.to_string();
        self.last_error = Some(message.clone());
        let event = GmSyncEvent::Failed { error: message };
        if let GmError::NotAuthenticated = error {
            self.running = false;
            return (event, GmSyncRecovery::SessionExpired);
        }
        if count >= config.max_consecutive_errors {
            self.running = false;
            return (event, GmSyncRecovery::Stop);
        }
        let mut factor: u64 = 1;
        let mut n: u32 = 0;
        while n < count
            invariant
                n <= count < 64,
                factor == pow2(n as nat),
            decreases count - n,
        {
            proof {
                lemma_pow2_mono(n as nat + 1, 63);
                lemma_pow2_63();
            }
            factor = factor * 2;
            n = n + 1;
        }
        let grown = config.error_backoff_base_ms * factor;
        let backoff = if grown < config.error_backoff_max_ms {
            grown
        } else {
            config.error_backoff_max_ms
        };
        (event, GmSyncRecovery::Backoff { ms: backoff })
    }

    /// How long the loop waits before its next sync: the current interval, or,
    /// where that is 0 (background sync disabled), until it is woken.
    pub fn next_wait(&self, config: &GmSyncConfig) -> (r: GmSyncWait)
        ensures
            ({
                let interval = if self.foreground() {
                    config.foreground_interval_ms
                } else {
                    config.background_interval_ms
                };
                r == if interval == 0 {
                    GmSyncWait::UntilWoken
                } else {
                    GmSyncWait::Interval { ms: interval }
                }
            }),
    {
        let interval = self.current_interval(config);
        if interval == 0 {
            GmSyncWait::UntilWoken
        } else {
            GmSyncWait::Interval { ms: interval }
        }
    }
}

/// How long the sync loop waits before its next sync.
#[derive(Debug, PartialEq, Eq, Structural)]
pub enum GmSyncWait {
    /// Until the interval has passed or the loop is woken, whichever comes first.
    Interval { ms: u64 },
    /// Until the loop is woken (a manual sync, or coming to the foreground).
    UntilWoken,
}

/// Counts of what a sync brought in.
#[derive(Debug, Clone, Copy, PartialEq, Eq, Structural)]
pub struct GmSyncTally {
    pub threads_updated: usize,
    pub messages_new: usize,
}

/// Threads after upserting each of `s` in order.
pub open spec fn threads_upserted_all(
    threads: Map<Seq<char>, GmThreadSummaryView>,
    s: Seq<GmThreadSummaryView>,
) -> Map<Seq<char>, GmThreadSummaryView>
    decreases s.len(),
{
    if s.len() == 0 {
        threads
    } else {
        thread_upserted(threads_upserted_all(threads, s.drop_last()), s.last())
    }
}

/// Messages and per-thread index after upserting each of `s` in order.
pub open spec fn messages_upserted_all(
    messages: Map<Seq<char>, GmMessageView>,
    index: Map<Seq<char>, Seq<Seq<char>>>,
    s: Seq<GmMessageView>,
) -> (Map<Seq<char>, GmMessageView>, Map<Seq<char>, Seq<Seq<char>>>)
    decreases s.len(),
{
    if s.len() == 0 {
        (messages, index)
    } else {
        let (m, i) = messages_upserted_all(messages, index, s.drop_last());
        (message_upserted(m, s.last()), index_upserted(m, i, s.last()))
    }
}

/// Upserts `threads` in order; returns how many there were.
pub fn upsert_threads(db: &mut GmDatabase, threads: Vec<GmThreadSummary>) -> (r: usize)
    requires
        old(db).wf(),
    ensures
        final(db).wf(),
        r == threads@.len(),
        final(db).threads_view() == threads_upserted_all(old(db).threads_view(), views(threads@)),
        final(db).messages_view() == old(db).messages_view(),
        final(db).thread_index_view() == old(db).thread_index_view(),
        final(db).outbox_view() == old(db).outbox_view(),
        final(db).next_id() == old(db).next_id(),
        final(db).cursors_view() == old(db).cursors_view(),
{
    let ghost orig = views(threads@);
    let total = threads.len();
    let mut rest = threads;
    let mut done: usize = 0;
    while 0 < rest.len()
        invariant
            total == orig.len(),
            done + rest@.len() == total,
            views(rest@) == orig.skip(done as int),
            db.wf(),
            db.threads_view() == threads_upserted_all(old(db).threads_view(), orig.take(done as int)),
            db.messages_view() == old(db).messages_view(),
            db.thread_index_view() == old(db).thread_index_view(),
            db.outbox_view() == old(db).outbox_view(),
            db.next_id() == old(db).next_id(),
            db.cursors_view() == old(db).cursors_view(),
        decreases rest@.len(),
    {
        let ghost before = rest@;
        let t = rest.remove(0);
        proof {
            assert(views(before)[0] == t@);
            assert(orig[done as int] == t@);
            assert(orig.take(done as int + 1).drop_last() =~= orig.take(done as int));
            assert(orig.take(done as int + 1).last() == t@);
        }
        let ghost mid = *db;
        let _ = db.upsert_thread(t);
        proof {
            GmDatabase::lemma_frames(db, &mid);
        }
        done = done + 1;
        proof {
            assert forall|j: int| 0 <= j < rest@.len() implies views(rest@)[j] == orig.skip(
                done as int,
            )[j] by {
                assert(rest@[j] == before[j + 1]);
                assert(views(before)[j + 1] == orig.skip(done as int - 1)[j + 1]);
            }
            assert(views(rest@) =~= orig.skip(done as int));
        }
    }
    proof {
        assert(orig.take(done as int) =~= orig);
    }
    done
}

/// Upserts `messages` in order; returns how many there were.
pub fn upsert_messages(db: &mut GmDatabase, messages: Vec<GmMessage>) -> (r: usize)
    requires
        old(db).wf(),
    ensures
        final(db).wf(),
        r == messages@.len(),
        (final(db).messages_view(), final(db).thread_index_view()) == messages_upserted_all(
            old(db).messages_view(),
            old(db).thread_index_view(),
            views(messages@),
        ),
        final(db).threads_view() == old(db).threads_view(),
        final(db).thread_order() == old(db).thread_order(),
        final(db).outbox_view() == old(db).outbox_view(),
        final(db).next_id() == old(db).next_id(),
        final(db).cursors_view() == old(db).cursors_view(),
{
    let ghost orig = views(messages@);
    let total = messages.len();
    let mut rest = messages;
    let mut done: usize = 0;
    while 0 < rest.len()
        invariant
            total == orig.len(),
            done + rest@.len() == total,
            views(rest@) == orig.skip(done as int),
            db.wf(),
            (db.messages_view(), db.thread_index_view()) == messages_upserted_all(
                old(db).messages_view(),
                old(db).thread_index_view(),
                orig.take(done as int),
            ),
            db.threads_view() == old(db).threads_view(),
            db.thread_order() == old(db).thread_order(),
            db.outbox_view() == old(db).outbox_view(),
            db.next_id() == old(db).next_id(),
            db.cursors_view() == old(db).cursors_view(),
        decreases rest@.len(),
    {
        let ghost before = rest@;
        let m = rest.remove(0);
        proof {
            assert(views(before)[0] == m@);
            assert(orig[done as int] == m@);
            assert(orig.take(done as int + 1).drop_last() =~= orig.take(done as int));
            assert(orig.take(done as int + 1).last() == m@);
        }
        let ghost mid = *db;
        let _ = db.upsert_message(m);
        proof {
            GmDatabase::lemma_frames(db, &mid);
        }
        done = done + 1;
        proof {
            assert forall|j: int| 0 <= j < rest@.len() implies views(rest@)[j] == orig.skip(
                done as int,
            )[j] by {
                assert(rest@[j] == before[j + 1]);
                assert(views(before)[j + 1] == orig.skip(done as int - 1)[j + 1]);
            }
            assert(views(rest@) =~= orig.skip(done as int));
        }
    }
    proof {
        assert(orig.take(done as int) =~= orig);
    }
    done
}

/// Brings one synced thread into the store, counts it, and returns the cursor
/// from which to fetch its messages.
pub fn sync_receive_thread(db: &mut GmDatabase, tally: &mut GmSyncTally, thread: GmThreadSummary) -> (cursor: Option<String>)
    requires
        old(db).wf(),
        old(tally).threads_updated < usize::MAX,
    ensures
        final(db).wf(),
        final(db).threads_view() == thread_upserted(old(db).threads_view(), thread@),
        final(db).messages_view() == old(db).messages_view(),
        final(db).thread_index_view() == old(db).thread_index_view(),
        final(db).outbox_view() == old(db).outbox_view(),
        final(db).next_id() == old(db).next_id(),
        final(db).cursors_view() == old(db).cursors_view(),
        *final(tally) == (GmSyncTally { threads_updated: (old(tally).threads_updated + 1) as usize, ..*old(tally) }),
        cursor.deep_view() == if old(db).cursors_view().contains_key(thread.remote_thread_id@) {
            Some(old(db).cursors_view()[thread.remote_thread_id@].cursor)
        } else {
            None
        },
{
    let key = thread.remote_thread_id.clone();
    let ghost mid = *db;
    let _ = db.upsert_thread(thread);
    proof {
        GmDatabase::lemma_frames(db, &mid);
    }
    tally.threads_updated = tally.threads_updated + 1;
    db.get_cursor(key.as_str())
}

/// Brings the synced messages of a thread into the store, counts them,
/// records the thread's new cursor (synced at `now`) when there is one, and
/// reports new messages when there are any.
pub fn sync_receive_messages(
    db: &mut GmDatabase,
    tally: &mut GmSyncTally,
    thread_id: &str,
    messages: Vec<GmMessage>,
    new_cursor: Option<String>,
    now: i64,
) -> (event: Option<GmSyncEvent>)
    requires
        old(db).wf(),
        old(tally).messages_new + messages@.len() <= usize::MAX,
    ensures
        final(db).wf(),
        (final(db).messages_view(), final(db).thread_index_view()) == messages_upserted_all(
            old(db).messages_view(),
            old(db).thread_index_view(),
            views(messages@),
        ),
        final(db).threads_view() == old(db).threads_view(),
        final(db).outbox_view() == old(db).outbox_view(),
        final(db).next_id() == old(db).next_id(),
        final(db).cursors_view() == match new_cursor {
            Some(c) => old(db).cursors_view().insert(thread_id@, cursor_record(thread_id@, c@, now)),
            None => old(db).cursors_view(),
        },
        *final(tally) == (GmSyncTally {
            messages_new: (old(tally).messages_new + messages@.len()) as usize,
            ..*old(tally)
        }),
        match event {
            Some(e) => {
                &&& messages@.len() > 0
                &&& e matches GmSyncEvent::NewMessages { thread_id: t, count } && t@ == thread_id@
                    && count == messages@.len()
            },
            None => messages@.len() == 0,
        },
{
    let ghost mid = *db;
    let count = upsert_messages(db, messages);
    let ghost mid2 = *db;
    tally.messages_new = tally.messages_new + count;
    if let Some(c) = new_cursor {
        let _ = db.update_cursor_at(thread_id, c.as_str(), now);
        proof {
            GmDatabase::lemma_frames(db, &mid2);
        }
    }
    if count > 0 {
        Some(GmSyncEvent::NewMessages { thread_id: crate::text::owned(thread_id), count })
    } else {
        None
    }
}

/// Applies data extracted from the WebView: the threads, then the messages,
/// each upserted in order; returns how many threads and messages there were.
pub fn sync_from_webview_data(
    db: &mut GmDatabase,
    threads: Option<Vec<GmThreadSummary>>,
    messages: Option<Vec<GmMessage>>,
) -> (r: Result<(usize, usize), GmError>)
    requires
        old(db).wf(),
    ensures
        final(db).wf(),
        r == Ok::<(usize, usize), GmError>(
            (
                match threads {
                    Some(v) => v@.len() as usize,
                    None => 0,
                },
                match messages {
                    Some(v) => v@.len() as usize,
                    None => 0,
                },
            ),
        ),
        final(db).threads_view() == match threads {
            Some(v) => threads_upserted_all(old(db).threads_view(), views(v@)),
            None => old(db).threads_view(),
        },
        (final(db).messages_view(), final(db).thread_index_view()) == match messages {
            Some(v) => messages_upserted_all(
                old(db).messages_view(),
                old(db).thread_index_view(),
                views(v@),
            ),
            None => (old(db).messages_view(), old(db).thread_index_view()),
        },
        final(db).outbox_view() == old(db).outbox_view(),
        final(db).next_id() == old(db).next_id(),
        final(db).cursors_view() == old(db).cursors_view(),
{
    let mut threads_updated: usize = 0;
    let mut messages_new: usize = 0;
    if let Some(v) = threads {
        threads_updated = upsert_threads(db, v);
    }
    if let Some(v) = messages {
        messages_new = upsert_messages(db, v);
    }
    Ok((threads_updated, messages_new))
}

} // verus!
