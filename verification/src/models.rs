//! Data models shared with the app: thread and message mappings between Google
//! Messages and the local database, the outbox queue, and results and errors.

use crate::clock::current_timestamp_millis;
use crate::keyed::{Keyed, Record};
use crate::sorting::SortKey;
use crate::text::{clone_opt_string, concat_str, owned};
use vstd::prelude::*;
use vstd::string::*;

verus! {

/// Pairing state of the WebView pairing with Google Messages.
#[derive(Clone, Copy, Debug, PartialEq, Eq, Structural)]
pub enum GMPairingState {
    /// Not paired - initial state
    NotPaired,
    /// WebView is open, waiting for the user to scan the QR code
    WaitingForPairing,
    /// Successfully paired with Google Messages
    Paired,
    /// Session has expired, needs re-pairing
    Expired,
    /// An error occurred during pairing
    Error,
}

impl Default for GMPairingState {
    fn default() -> (r: Self)
        ensures
            r == GMPairingState::NotPaired,
    {
        GMPairingState::NotPaired
    }
}

/// Direction of a message.
#[derive(Clone, Copy, Debug, PartialEq, Eq, Structural)]
pub enum GMMessageDirection {
    Incoming,
    Outgoing,
}

/// Status of an outgoing message.
#[derive(Clone, Copy, Debug, PartialEq, Eq, Structural)]
pub enum GMMessageStatus {
    /// Queued locally, not yet sent
    Queued,
    /// Being sent
    Sending,
    /// Sent successfully
    Sent,
    /// Sending failed
    Failed,
    /// Delivered (when delivery receipts are available)
    Delivered,
}

impl Default for GMMessageStatus {
    fn default() -> (r: Self)
        ensures
            r == GMMessageStatus::Queued,
    {
        GMMessageStatus::Queued
    }
}

/// A thread mapping between Google Messages and the local database.
#[derive(Debug)]
pub struct GMThread {
    /// Local id (auto-increment)
    pub id: Option<i64>,
    /// Remote thread id from Google Messages
    pub remote_thread_id: String,
    /// Local chat UUID in the app's database
    pub local_chat_guid: Option<String>,
    /// Last updated timestamp
    pub updated_at: i64,
    /// Sync cursor of this thread (last message timestamp or id)
    pub cursor: Option<String>,
    /// Display name of the conversation
    pub display_name: Option<String>,
    /// Participants (comma-separated phone numbers or emails)
    pub participants: Option<String>,
    /// Whether this is a group conversation
    pub is_group: bool,
}

impl Clone for GMThread {
    fn clone(&self) -> (r: Self)
        ensures
            r == *self,
    {
        GMThread {
            id: self.id,
            remote_thread_id: self.remote_thread_id.clone(),
            local_chat_guid: clone_opt_string(&self.local_chat_guid),
            updated_at: self.updated_at,
            cursor: clone_opt_string(&self.cursor),
            display_name: clone_opt_string(&self.display_name),
            participants: clone_opt_string(&self.participants),
            is_group: self.is_group,
        }
    }
}

/// A thread mapping is its own mathematical value.
impl View for GMThread {
    type V = GMThread;

    open spec fn view(&self) -> GMThread {
        *self
    }
}

impl Record for GMThread {
    fn duplicate(&self) -> (r: Self) {
        self.clone()
    }
}

impl Keyed for GMThread {
    open spec fn key_view(&self) -> Seq<char> {
        self.remote_thread_id@
    }

    fn key(&self) -> (k: &String) {
        &self.remote_thread_id
    }
}

impl GMThread {
    /// A new mapping for `remote_thread_id`, updated at `now`, with nothing else known.
    pub fn new_at(remote_thread_id: String, now: i64) -> (r: Self)
        ensures
            r.id is None,
            r.remote_thread_id == remote_thread_id,
            r.local_chat_guid is None,
            r.updated_at == now,
            r.cursor is None,
            r.display_name is None,
            r.participants is None,
            !r.is_group,
    {
        GMThread {
            id: None,
            remote_thread_id,
            local_chat_guid: None,
            updated_at: now,
            cursor: None,
            display_name: None,
            participants: None,
            is_group: false,
        }
    }

    /// A new mapping for `remote_thread_id`, updated now, with nothing else known.
    pub fn new(remote_thread_id: String) -> (r: Self)
        ensures
            r.id is None,
            r.remote_thread_id == remote_thread_id,
            r.local_chat_guid is None,
            r.cursor is None,
            r.display_name is None,
            r.participants is None,
            !r.is_group,
    {
        Self::new_at(remote_thread_id, current_timestamp_millis())
    }
}

/// A message mapping between Google Messages and the local database.
#[derive(Debug)]
pub struct GMMessage {
    /// Local id (auto-increment)
    pub id: Option<i64>,
    /// Remote message id from Google Messages
    pub remote_message_id: String,
    /// Remote thread id this message belongs to
    pub remote_thread_id: String,
    /// Local message UUID in the app's database
    pub local_message_guid: Option<String>,
    /// Message timestamp (ms since epoch)
    pub timestamp: i64,
    /// Incoming or outgoing
    pub direction: GMMessageDirection,
    /// Message status
    pub status: GMMessageStatus,
    /// Text content
    pub text: Option<String>,
}

impl Clone for GMMessage {
    fn clone(&self) -> (r: Self)
        ensures
            r == *self,
    {
        GMMessage {
            id: self.id,
            remote_message_id: self.remote_message_id.clone(),
            remote_thread_id: self.remote_thread_id.clone(),
            local_message_guid: clone_opt_string(&self.local_message_guid),
            timestamp: self.timestamp,
            direction: self.direction,
            status: self.status,
            text: clone_opt_string(&self.text),
        }
    }
}

/// A message mapping is its own mathematical value.
impl View for GMMessage {
    type V = GMMessage;

    open spec fn view(&self) -> GMMessage {
        *self
    }
}

impl Record for GMMessage {
    fn duplicate(&self) -> (r: Self) {
        self.clone()
    }
}

impl Keyed for GMMessage {
    open spec fn key_view(&self) -> Seq<char> {
        self.remote_message_id@
    }

    fn key(&self) -> (k: &String) {
        &self.remote_message_id
    }
}

/// Message mappings are listed newest first.
impl SortKey for GMMessage {
    open spec fn view_key(v: GMMessage) -> int {
        v.timestamp as int
    }

    fn sort_key_exec(&self) -> (k: i64) {
        self.timestamp
    }
}

impl GMMessage {
    /// A new sent message stamped at `now`, with no text and no local mapping.
    pub fn new_at(
        remote_message_id: String,
        remote_thread_id: String,
        direction: GMMessageDirection,
        now: i64,
    ) -> (r: Self)
        ensures
            r.id is None,
            r.remote_message_id == remote_message_id,
            r.remote_thread_id == remote_thread_id,
            r.local_message_guid is None,
            r.timestamp == now,
            r.direction == direction,
            r.status == GMMessageStatus::Sent,
            r.text is None,
    {
        GMMessage {
            id: None,
            remote_message_id,
            remote_thread_id,
            local_message_guid: None,
            timestamp: now,
            direction,
            status: GMMessageStatus::Sent,
            text: None,
        }
    }

    /// A new sent message stamped now, with no text and no local mapping.
    pub fn new(
        remote_message_id: String,
        remote_thread_id: String,
        direction: GMMessageDirection,
    ) -> (r: Self)
        ensures
            r.id is None,
            r.remote_message_id == remote_message_id,
            r.remote_thread_id == remote_thread_id,
            r.local_message_guid is None,
            r.direction == direction,
            r.status == GMMessageStatus::Sent,
            r.text is None,
    {
        Self::new_at(remote_message_id, remote_thread_id, direction, current_timestamp_millis())
    }
}

/// An outgoing message in the outbox queue.
#[derive(Debug)]
pub struct GMOutboxItem {
    /// Local id (auto-increment)
    pub id: Option<i64>,
    /// Remote thread id to send to
    pub remote_thread_id: String,
    /// Local message UUID
    pub local_message_guid: String,
    /// Text to send
    pub text: String,
    /// Current status
    pub status: GMMessageStatus,
    /// Number of send attempts
    pub attempts: i32,
    /// Next retry timestamp (ms since epoch), `None` when not scheduled
    pub next_retry_at: Option<i64>,
    /// Last error message, if sending failed
    pub last_error: Option<String>,
    /// Creation timestamp
    pub created_at: i64,
}

/// `2^n`.
pub open spec fn pow2(n: nat) -> int
    decreases n,
{
    if n == 0 {
        1
    } else {
        2 * pow2((n - 1) as nat)
    }
}

/// Backoff before retry number `attempts + 1`: 5 s, doubling with each
/// attempt, up to 320 s from the sixth attempt on.
pub open spec fn retry_backoff_ms(attempts: i32) -> int {
    5000 * pow2(if attempts < 6 {
        attempts as nat
    } else {
        6
    })
}

impl Clone for GMOutboxItem {
    fn clone(&self) -> (r: Self)
        ensures
            r == *self,
    {
        GMOutboxItem {
            id: self.id,
            remote_thread_id: self.remote_thread_id.clone(),
            local_message_guid: self.local_message_guid.clone(),
            text: self.text.clone(),
            status: self.status,
            attempts: self.attempts,
            next_retry_at: self.next_retry_at,
            last_error: clone_opt_string(&self.last_error),
            created_at: self.created_at,
        }
    }
}

/// An outbox item is its own mathematical value.
impl View for GMOutboxItem {
    type V = GMOutboxItem;

    open spec fn view(&self) -> GMOutboxItem {
        *self
    }
}

impl Record for GMOutboxItem {
    fn duplicate(&self) -> (r: Self) {
        self.clone()
    }
}

/// Backoff starts at 5 s, doubles with each attempt, and stays at 320 s from
/// the sixth attempt on.
pub proof fn law_retry_backoff_doubles(attempts: i32)
    requires
        attempts >= 0,
    ensures
        retry_backoff_ms(0) == 5000,
        attempts < 6 ==> retry_backoff_ms((attempts + 1) as i32) == 2 * retry_backoff_ms(attempts),
        attempts >= 6 ==> retry_backoff_ms(attempts) == 320_000,
{
    reveal_with_fuel(pow2, 7);
}

impl GMOutboxItem {
    /// A new queued item created at `now`, with no attempt made yet.
    pub fn new_at(remote_thread_id: String, local_message_guid: String, text: String, now: i64) -> (r:
        Self)
        ensures
            r.id is None,
            r.remote_thread_id == remote_thread_id,
            r.local_message_guid == local_message_guid,
            r.text == text,
            r.status == GMMessageStatus::Queued,
            r.attempts == 0,
            r.next_retry_at is None,
            r.last_error is None,
            r.created_at == now,
    {
        GMOutboxItem {
            id: None,
            remote_thread_id,
            local_message_guid,
            text,
            status: GMMessageStatus::Queued,
            attempts: 0,
            next_retry_at: None,
            last_error: None,
            created_at: now,
        }
    }

    /// A new queued item created now, with no attempt made yet.
    pub fn new(remote_thread_id: String, local_message_guid: String, text: String) -> (r: Self)
        ensures
            r.id is None,
            r.remote_thread_id == remote_thread_id,
            r.local_message_guid == local_message_guid,
            r.text == text,
            r.status == GMMessageStatus::Queued,
            r.attempts == 0,
            r.next_retry_at is None,
            r.last_error is None,
    {
        Self::new_at(remote_thread_id, local_message_guid, text, current_timestamp_millis())
    }

    /// When to retry, seen from time `now`, with exponential backoff (5 s,
    /// 10 s, 20 s, ... up to 320 s); `None` once `max_attempts` is reached.
    pub fn calculate_next_retry_at(&self, max_attempts: i32, now: i64) -> (r: Option<i64>)
        requires
            self.attempts < max_attempts ==> 0 <= self.attempts && now + retry_backoff_ms(
                self.attempts,
            ) <= i64::MAX,
        ensures
            r == if self.attempts >= max_attempts {
                None
            } else {
                Some((now + retry_backoff_ms(self.attempts)) as i64)
            },
    {
        if self.attempts >= max_attempts {
            return None;
        }
        let shift: i32 = if self.attempts < 6 {
            self.attempts
        } else {
            6
        };
        let factor: i64 = if shift == 0 {
            1
        } else if shift == 1 {
            2
        } else if shift == 2 {
            4
        } else if shift == 3 {
            8
        } else if shift == 4 {
            16
        } else if shift == 5 {
            32
        } else {
            64
        };
        proof {
            reveal_with_fuel(pow2, 7);
        }
        let delay_ms: i64 = 5000 * factor;
        Some(now + delay_ms)
    }

    /// When to retry, seen from now (see [`GMOutboxItem::calculate_next_retry_at`]);
    /// `None` once `max_attempts` is reached. A retry time past the largest
    /// timestamp is given as the largest timestamp.
    pub fn calculate_next_retry(&self, max_attempts: i32) -> (r: Option<i64>)
        requires
            self.attempts < max_attempts ==> 0 <= self.attempts,
        ensures
            self.attempts >= max_attempts ==> r is None,
            self.attempts < max_attempts ==> exists|now: i64|
                r == Some(#[trigger] retry_time_from(now, self.attempts)),
    {
        if self.attempts >= max_attempts {
            return None;
        }
        let now = current_timestamp_millis();
        proof {
            reveal_with_fuel(pow2, 7);
        }
        let delay_ms = match self.calculate_next_retry_at(max_attempts, 0) {
            Some(d) => d,
            None => 0,
        };
        assert(delay_ms == retry_backoff_ms(self.attempts));
        let r = if now <= i64::MAX - delay_ms {
            Some(now + delay_ms)
        } else {
            Some(i64::MAX)
        };
        assert(r == Some(retry_time_from(now, self.attempts)));
        r
    }
}

/// The retry time `now` plus the backoff after `attempts` attempts, or the
/// largest timestamp where that sum does not fit in an `i64`.
pub open spec fn retry_time_from(now: i64, attempts: i32) -> i64 {
    if now + retry_backoff_ms(attempts) <= i64::MAX {
        (now + retry_backoff_ms(attempts)) as i64
    } else {
        i64::MAX
    }
}

/// Summary of a thread for display in the conversation list.
#[derive(Debug)]
pub struct GMThreadSummary {
    pub remote_thread_id: String,
    pub display_name: Option<String>,
    pub last_message_text: Option<String>,
    pub last_message_timestamp: i64,
    pub unread_count: i32,
    pub is_group: bool,
    pub participants: Vec<String>,
}

/// Result of sending a message.
#[derive(Debug)]
pub enum GMSendResult {
    /// Sent successfully
    Success { remote_message_id: String },
    /// Queued for retry
    Queued { outbox_id: i64 },
    /// Sending failed
    Failed { error: String },
}

/// Errors of Google Messages operations.
#[derive(Debug)]
pub enum GMError {
    /// Not paired with Google Messages
    NotPaired,
    /// Session expired, needs re-pairing
    SessionExpired,
    /// Network error
    NetworkError { message: String },
    /// Authentication error
    AuthError { message: String },
    /// Database error
    DatabaseError { message: String },
    /// Unknown error
    Unknown { message: String },
}

impl GMError {
    /// The text shown for the error.
    pub open spec fn display_text(&self) -> Seq<char> {
        match self {
            GMError::NotPaired => "Not paired with Google Messages"@,
            GMError::SessionExpired => "Google Messages session expired"@,
            GMError::NetworkError { message } => "Network error: "@ + message@,
            GMError::AuthError { message } => "Authentication error: "@ + message@,
            GMError::DatabaseError { message } => "Database error: "@ + message@,
            GMError::Unknown { message } => "Unknown error: "@ + message@,
        }
    }

    /// The text shown for the error.
    pub fn to_string(&self) -> (r: String)
        ensures
            r@ == self.display_text(),
    {
        match self {
            GMError::NotPaired => owned("Not paired with Google Messages"),
            GMError::SessionExpired => owned("Google Messages session expired"),
            GMError::NetworkError { message } => concat_str("Network error: ", message.as_str()),
            GMError::AuthError { message } => concat_str("Authentication error: ", message.as_str()),
            GMError::DatabaseError { message } => concat_str("Database error: ", message.as_str()),
            GMError::Unknown { message } => concat_str("Unknown error: ", message.as_str()),
        }
    }
}

/// Diagnostics of the Google Messages connection.
#[derive(Debug)]
pub struct GMDiagnostics {
    pub pairing_state: GMPairingState,
    pub last_sync_time: Option<i64>,
    pub outbox_size: i32,
    pub last_error: Option<String>,
    pub thread_count: i32,
    pub message_count: i32,
}

} // verus!
