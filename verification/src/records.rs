//! The records that the message store keeps: threads, messages, outbox items,
//! sync cursors, and the errors and results of store and transport operations.

use crate::keyed::{Keyed, Record};
use crate::sorting::SortKey;
use crate::text::{append_decimal_u64, clone_opt_string, clone_string_vec, concat_str, decimal_nat, owned};
use vstd::string::*;
use vstd::prelude::*;

verus! {

/// Direction of a message.
#[derive(Clone, Copy, Debug, PartialEq, Eq, Structural)]
pub enum GmMessageDirection {
    Incoming,
    Outgoing,
}

/// Delivery status of a message or an outbox item.
#[derive(Debug)]
pub enum GmMessageStatus {
    Queued,
    Sending,
    Sent,
    Failed { error: String },
    Cancelled,
}

impl Clone for GmMessageStatus {
    fn clone(&self) -> (r: Self)
        ensures
            r == *self,
    {
        match self {
            GmMessageStatus::Queued => GmMessageStatus::Queued,
            GmMessageStatus::Sending => GmMessageStatus::Sending,
            GmMessageStatus::Sent => GmMessageStatus::Sent,
            GmMessageStatus::Failed { error } => GmMessageStatus::Failed { error: error.clone() },
            GmMessageStatus::Cancelled => GmMessageStatus::Cancelled,
        }
    }
}

impl GmMessageStatus {
    /// Whether the status is `Failed`, whatever its error text.
    pub fn is_failed(&self) -> (r: bool)
        ensures
            r == (*self is Failed),
    {
        match self {
            GmMessageStatus::Failed { .. } => true,
            _ => false,
        }
    }
}

/// Summary of a conversation as the store keeps it.
#[derive(Debug)]
pub struct GmThreadSummary {
    pub remote_thread_id: String,
    pub local_thread_uuid: Option<String>,
    pub display_name: Option<String>,
    pub participants: Vec<String>,
    pub last_message_snippet: Option<String>,
    pub last_message_timestamp: Option<i64>,
    pub unread_count: u32,
    pub is_group: bool,
    pub updated_at: i64,
}

/// Mathematical value of a [`GmThreadSummary`].
pub struct GmThreadSummaryView {
    pub remote_thread_id: Seq<char>,
    pub local_thread_uuid: Option<Seq<char>>,
    pub display_name: Option<Seq<char>>,
    pub participants: Seq<Seq<char>>,
    pub last_message_snippet: Option<Seq<char>>,
    pub last_message_timestamp: Option<i64>,
    pub unread_count: u32,
    pub is_group: bool,
    pub updated_at: i64,
}

impl View for GmThreadSummary {
    type V = GmThreadSummaryView;

    open spec fn view(&self) -> GmThreadSummaryView {
        GmThreadSummaryView {
            remote_thread_id: self.remote_thread_id@,
            local_thread_uuid: self.local_thread_uuid.deep_view(),
            display_name: self.display_name.deep_view(),
            participants: self.participants.deep_view(),
            last_message_snippet: self.last_message_snippet.deep_view(),
            last_message_timestamp: self.last_message_timestamp,
            unread_count: self.unread_count,
            is_group: self.is_group,
            updated_at: self.updated_at,
        }
    }
}

impl Clone for GmThreadSummary {
    fn clone(&self) -> (r: Self)
        ensures
            r@ == self@,
    {
        let participants = clone_string_vec(&self.participants);
        let r = GmThreadSummary {
            remote_thread_id: self.remote_thread_id.clone(),
            local_thread_uuid: clone_opt_string(&self.local_thread_uuid),
            display_name: clone_opt_string(&self.display_name),
            participants,
            last_message_snippet: clone_opt_string(&self.last_message_snippet),
            last_message_timestamp: self.last_message_timestamp,
            unread_count: self.unread_count,
            is_group: self.is_group,
            updated_at: self.updated_at,
        };
        proof {
            assert(r.participants.deep_view() =~= self.participants.deep_view());
        }
        r
    }
}

impl Record for GmThreadSummary {
    fn duplicate(&self) -> (r: Self) {
        self.clone()
    }
}

impl Keyed for GmThreadSummary {
    open spec fn key_view(&self) -> Seq<char> {
        self.remote_thread_id@
    }

    fn key(&self) -> (k: &String) {
        &self.remote_thread_id
    }
}

/// Threads are listed by the time of their last message; a thread without one counts as 0.
impl SortKey for GmThreadSummary {
    open spec fn view_key(v: GmThreadSummaryView) -> int {
        match v.last_message_timestamp {
            Some(t) => t as int,
            None => 0,
        }
    }

    fn sort_key_exec(&self) -> (k: i64) {
        match self.last_message_timestamp {
            Some(t) => t,
            None => 0,
        }
    }
}

/// A message as the store keeps it.
#[derive(Debug)]
pub struct GmMessage {
    pub remote_message_id: String,
    pub remote_thread_id: String,
    pub local_message_uuid: Option<String>,
    pub text: Option<String>,
    pub timestamp: i64,
    pub direction: GmMessageDirection,
    pub status: GmMessageStatus,
    pub sender: Option<String>,
    pub is_read: bool,
}

/// Mathematical value of a [`GmMessage`].
pub struct GmMessageView {
    pub remote_message_id: Seq<char>,
    pub remote_thread_id: Seq<char>,
    pub local_message_uuid: Option<Seq<char>>,
    pub text: Option<Seq<char>>,
    pub timestamp: i64,
    pub direction: GmMessageDirection,
    pub status: GmMessageStatus,
    pub sender: Option<Seq<char>>,
    pub is_read: bool,
}

impl View for GmMessage {
    type V = GmMessageView;

    open spec fn view(&self) -> GmMessageView {
        GmMessageView {
            remote_message_id: self.remote_message_id@,
            remote_thread_id: self.remote_thread_id@,
            local_message_uuid: self.local_message_uuid.deep_view(),
            text: self.text.deep_view(),
            timestamp: self.timestamp,
            direction: self.direction,
            status: self.status,
            sender: self.sender.deep_view(),
            is_read: self.is_read,
        }
    }
}

impl Clone for GmMessage {
    fn clone(&self) -> (r: Self)
        ensures
            r@ == self@,
    {
        GmMessage {
            remote_message_id: self.remote_message_id.clone(),
            remote_thread_id: self.remote_thread_id.clone(),
            local_message_uuid: clone_opt_string(&self.local_message_uuid),
            text: clone_opt_string(&self.text),
            timestamp: self.timestamp,
            direction: self.direction,
            status: self.status.clone(),
            sender: clone_opt_string(&self.sender),
            is_read: self.is_read,
        }
    }
}

impl Record for GmMessage {
    fn duplicate(&self) -> (r: Self) {
        self.clone()
    }
}

impl Keyed for GmMessage {
    open spec fn key_view(&self) -> Seq<char> {
        self.remote_message_id@
    }

    fn key(&self) -> (k: &String) {
        &self.remote_message_id
    }
}

/// Messages are listed newest first.
impl SortKey for GmMessage {
    open spec fn view_key(v: GmMessageView) -> int {
        v.timestamp as int
    }

    fn sort_key_exec(&self) -> (k: i64) {
        self.timestamp
    }
}

/// An outgoing message waiting in the outbox.
#[derive(Debug)]
pub struct GmOutboxItem {
    pub id: i64,
    pub account_id: String,
    pub remote_thread_id: String,
    pub local_message_uuid: String,
    pub text: String,
    pub status: GmMessageStatus,
    pub attempts: u32,
    pub next_retry_at: Option<i64>,
    pub last_error: Option<String>,
    pub created_at: i64,
}

/// Mathematical value of a [`GmOutboxItem`].
pub struct GmOutboxItemView {
    pub id: i64,
    pub account_id: Seq<char>,
    pub remote_thread_id: Seq<char>,
    pub local_message_uuid: Seq<char>,
    pub text: Seq<char>,
    pub status: GmMessageStatus,
    pub attempts: u32,
    pub next_retry_at: Option<i64>,
    pub last_error: Option<Seq<char>>,
    pub created_at: i64,
}

impl View for GmOutboxItem {
    type V = GmOutboxItemView;

    open spec fn view(&self) -> GmOutboxItemView {
        GmOutboxItemView {
            id: self.id,
            account_id: self.account_id@,
            remote_thread_id: self.remote_thread_id@,
            local_message_uuid: self.local_message_uuid@,
            text: self.text@,
            status: self.status,
            attempts: self.attempts,
            next_retry_at: self.next_retry_at,
            last_error: self.last_error.deep_view(),
            created_at: self.created_at,
        }
    }
}

impl Record for GmOutboxItem {
    fn duplicate(&self) -> (r: Self) {
        self.clone()
    }
}

impl Clone for GmOutboxItem {
    fn clone(&self) -> (r: Self)
        ensures
            r@ == self@,
    {
        GmOutboxItem {
            id: self.id,
            account_id: self.account_id.clone(),
            remote_thread_id: self.remote_thread_id.clone(),
            local_message_uuid: self.local_message_uuid.clone(),
            text: self.text.clone(),
            status: self.status.clone(),
            attempts: self.attempts,
            next_retry_at: self.next_retry_at,
            last_error: clone_opt_string(&self.last_error),
            created_at: self.created_at,
        }
    }
}

/// How far a thread has been synced.
#[derive(Debug)]
pub struct GmSyncCursor {
    pub remote_thread_id: String,
    pub cursor: String,
    pub synced_at: i64,
}

/// Mathematical value of a [`GmSyncCursor`].
pub struct GmSyncCursorView {
    pub remote_thread_id: Seq<char>,
    pub cursor: Seq<char>,
    pub synced_at: i64,
}

impl View for GmSyncCursor {
    type V = GmSyncCursorView;

    open spec fn view(&self) -> GmSyncCursorView {
        GmSyncCursorView {
            remote_thread_id: self.remote_thread_id@,
            cursor: self.cursor@,
            synced_at: self.synced_at,
        }
    }
}

impl Clone for GmSyncCursor {
    fn clone(&self) -> (r: Self)
        ensures
            r@ == self@,
    {
        GmSyncCursor {
            remote_thread_id: self.remote_thread_id.clone(),
            cursor: self.cursor.clone(),
            synced_at: self.synced_at,
        }
    }
}

impl Record for GmSyncCursor {
    fn duplicate(&self) -> (r: Self) {
        self.clone()
    }
}

impl Keyed for GmSyncCursor {
    open spec fn key_view(&self) -> Seq<char> {
        self.remote_thread_id@
    }

    fn key(&self) -> (k: &String) {
        &self.remote_thread_id
    }
}

/// The ids of a thread's messages, in the order in which they were first stored.
#[derive(Debug)]
pub struct GmThreadIndex {
    pub remote_thread_id: String,
    pub message_ids: Vec<String>,
}

impl View for GmThreadIndex {
    type V = Seq<Seq<char>>;

    open spec fn view(&self) -> Seq<Seq<char>> {
        self.message_ids.deep_view()
    }
}

impl Clone for GmThreadIndex {
    fn clone(&self) -> (r: Self)
        ensures
            r.remote_thread_id@ == self.remote_thread_id@,
            r@ == self@,
    {
        let ids = clone_string_vec(&self.message_ids);
        let r = GmThreadIndex { remote_thread_id: self.remote_thread_id.clone(), message_ids: ids };
        proof {
            assert(r.message_ids.deep_view() =~= self.message_ids.deep_view());
        }
        r
    }
}

impl Record for GmThreadIndex {
    fn duplicate(&self) -> (r: Self) {
        self.clone()
    }
}

impl Keyed for GmThreadIndex {
    open spec fn key_view(&self) -> Seq<char> {
        self.remote_thread_id@
    }

    fn key(&self) -> (k: &String) {
        &self.remote_thread_id
    }
}

/// Errors of store and transport operations.
#[derive(Debug)]
pub enum GmError {
    NotAuthenticated,
    NetworkError { message: String },
    RateLimited { retry_after_secs: Option<u64> },
    InvalidResponse { message: String },
    DatabaseError { message: String },
    Unknown { message: String },
}

impl Clone for GmError {
    fn clone(&self) -> (r: Self)
        ensures
            r == *self,
    {
        match self {
            GmError::NotAuthenticated => GmError::NotAuthenticated,
            GmError::NetworkError { message } => GmError::NetworkError { message: message.clone() },
            GmError::RateLimited { retry_after_secs } => GmError::RateLimited {
                retry_after_secs: *retry_after_secs,
            },
            GmError::InvalidResponse { message } => GmError::InvalidResponse {
                message: message.clone(),
            },
            GmError::DatabaseError { message } => GmError::DatabaseError {
                message: message.clone(),
            },
            GmError::Unknown { message } => GmError::Unknown { message: message.clone() },
        }
    }
}

impl GmError {
    /// The text shown for the error.
    pub open spec fn display_text(&self) -> Seq<char> {
        match self {
            GmError::NotAuthenticated => "Not authenticated with Google Messages"@,
            GmError::NetworkError { message } => "Network error: "@ + message@,
            GmError::RateLimited { retry_after_secs } => match retry_after_secs {
                Some(secs) => "Rate limited, retry after "@ + decimal_nat(*secs as nat) + " seconds"@,
                None => "Rate limited"@,
            },
            GmError::InvalidResponse { message } => "Invalid response: "@ + message@,
            GmError::DatabaseError { message } => "Database error: "@ + message@,
            GmError::Unknown { message } => "Unknown error: "@ + message@,
        }
    }

    /// The text shown for the error.
    pub fn to_string(&self) -> (r: String)
        ensures
            r@ == self.display_text(),
    {
        match self {
            GmError::NotAuthenticated => owned("Not authenticated with Google Messages"),
            GmError::NetworkError { message } => concat_str("Network error: ", message.as_str()),
            GmError::RateLimited { retry_after_secs } => match retry_after_secs {
                Some(secs) => {
                    let mut s = owned("Rate limited, retry after ");
                    append_decimal_u64(&mut s, *secs);
                    s.append(" seconds");
                    s
                },
                None => owned("Rate limited"),
            },
            GmError::InvalidResponse { message } => concat_str("Invalid response: ", message.as_str()),
            GmError::DatabaseError { message } => concat_str("Database error: ", message.as_str()),
            GmError::Unknown { message } => concat_str("Unknown error: ", message.as_str()),
        }
    }
}

/// Outcome of an attempt to send a message.
#[derive(Debug)]
pub struct GmSendResult {
    pub success: bool,
    pub remote_message_id: Option<String>,
    pub error: Option<String>,
    pub can_retry: bool,
}

} // verus!
