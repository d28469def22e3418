//! What the protocol client decides without the network: how an HTTP status
//! is classified, and how data extracted from the WebView becomes store records.

use crate::clock::current_timestamp_millis;
use crate::keyed::views;
use crate::models::GMPairingState;
use crate::session::GMSessionState;
use crate::records::{
    GmError, GmMessage, GmMessageDirection, GmMessageStatus, GmMessageView, GmThreadSummary,
    GmThreadSummaryView,
};
use crate::text::{clone_opt_string, clone_string_vec, concat_str, decimal_nat, owned};
use vstd::prelude::*;
use vstd::string::*;

verus! {

/// A thread as the WebView extraction reports it.
#[derive(Debug)]
pub struct GmWebViewThread {
    pub id: String,
    pub name: Option<String>,
    pub participants: Option<Vec<String>>,
    pub last_message_text: Option<String>,
    pub last_message_time: Option<i64>,
    pub unread_count: Option<u32>,
    pub is_group: Option<bool>,
}

/// A message as the WebView extraction reports it.
#[derive(Debug)]
pub struct GmWebViewMessage {
    pub id: String,
    pub text: Option<String>,
    pub timestamp: i64,
    pub is_from_me: bool,
    pub sender: Option<String>,
    pub is_read: Option<bool>,
}

/// The store record of a WebView thread, updated at `now`: no local link yet,
/// no participants, unread count 0 and not a group unless reported.
pub open spec fn thread_from_webview(t: GmWebViewThread, now: i64) -> GmThreadSummaryView {
    GmThreadSummaryView {
        remote_thread_id: t.id@,
        local_thread_uuid: None,
        display_name: t.name.deep_view(),
        participants: match t.participants {
            Some(p) => p.deep_view(),
            None => Seq::empty(),
        },
        last_message_snippet: t.last_message_text.deep_view(),
        last_message_timestamp: t.last_message_time,
        unread_count: match t.unread_count {
            Some(n) => n,
            None => 0,
        },
        is_group: match t.is_group {
            Some(b) => b,
            None => false,
        },
        updated_at: now,
    }
}

/// The store record of a WebView message of thread `thread_id`: sent, with
/// no local link, read unless reported otherwise.
pub open spec fn message_from_webview(thread_id: Seq<char>, m: GmWebViewMessage) -> GmMessageView {
    GmMessageView {
        remote_message_id: m.id@,
        remote_thread_id: thread_id,
        local_message_uuid: None,
        text: m.text.deep_view(),
        timestamp: m.timestamp,
        direction: if m.is_from_me {
            GmMessageDirection::Outgoing
        } else {
            GmMessageDirection::Incoming
        },
        status: GmMessageStatus::Sent,
        sender: m.sender.deep_view(),
        is_read: match m.is_read {
            Some(b) => b,
            None => true,
        },
    }
}

/// Store records of WebView threads, in order, all updated at `now`.
pub open spec fn webview_threads(items: Seq<GmWebViewThread>, now: i64) -> Seq<GmThreadSummaryView> {
    items.map_values(|t: GmWebViewThread| thread_from_webview(t, now))
}

/// Store records of WebView threads, in order, all updated at `now`.
pub fn threads_from_webview_at(items: Vec<GmWebViewThread>, now: i64) -> (r: Vec<GmThreadSummary>)
    ensures
        views(r@) == webview_threads(items@, now),
{
    let mut out: Vec<GmThreadSummary> = Vec::new();
    let mut i: usize = 0;
    while i < items.len()
        invariant
            i <= items@.len(),
            views(out@) == items@.take(i as int).map_values(
                |t: GmWebViewThread| thread_from_webview(t, now),
            ),
        decreases items@.len() - i,
    {
        let t = &items[i];
        let participants = match &t.participants {
            Some(p) => clone_string_vec(p),
            None => Vec::new(),
        };
        let record = GmThreadSummary {
            remote_thread_id: t.id.clone(),
            local_thread_uuid: None,
            display_name: clone_opt_string(&t.name),
            participants,
            last_message_snippet: clone_opt_string(&t.last_message_text),
            last_message_timestamp: t.last_message_time,
            unread_count: match t.unread_count {
                Some(n) => n,
                None => 0,
            },
            is_group: match t.is_group {
                Some(b) => b,
                None => false,
            },
            updated_at: now,
        };
        let ghost prev = out@;
        proof {
            assert(record.participants.deep_view() =~= match t.participants {
                Some(p) => p.deep_view(),
                None => Seq::<Seq<char>>::empty(),
            });
            assert(record@ == thread_from_webview(*t, now));
        }
        out.push(record);
        proof {
            assert(views(out@) =~= views(prev).push(record@));
            assert(items@.take(i as int + 1) =~= items@.take(i as int).push(*t));
            assert(items@.take(i as int + 1).map_values(|t: GmWebViewThread| thread_from_webview(t, now))
                =~= items@.take(i as int).map_values(|t: GmWebViewThread| thread_from_webview(t, now)).push(
                thread_from_webview(*t, now),
            ));
        }
        i = i + 1;
    }
    proof {
        assert(items@.take(items@.len() as int) =~= items@);
    }
    out
}

/// Store records of WebView threads, in order, all updated now.
pub fn threads_from_webview(items: Vec<GmWebViewThread>) -> (r: Vec<GmThreadSummary>)
    ensures
        exists|now: i64|
            views(r@) == #[trigger] webview_threads(items@, now),
{
    let now = current_timestamp_millis();
    threads_from_webview_at(items, now)
}

/// Store records of WebView messages of thread `thread_id`, in order.
pub fn messages_from_webview(thread_id: &str, items: Vec<GmWebViewMessage>) -> (r: Vec<GmMessage>)
    ensures
        views(r@) == items@.map_values(|m: GmWebViewMessage| message_from_webview(thread_id@, m)),
{
    let mut out: Vec<GmMessage> = Vec::new();
    let mut i: usize = 0;
    while i < items.len()
        invariant
            i <= items@.len(),
            views(out@) == items@.take(i as int).map_values(
                |m: GmWebViewMessage| message_from_webview(thread_id@, m),
            ),
        decreases items@.len() - i,
    {
        let m = &items[i];
        let record = GmMessage {
            remote_message_id: m.id.clone(),
            remote_thread_id: owned(thread_id),
            local_message_uuid: None,
            text: clone_opt_string(&m.text),
            timestamp: m.timestamp,
            direction: if m.is_from_me {
                GmMessageDirection::Outgoing
            } else {
                GmMessageDirection::Incoming
            },
            status: GmMessageStatus::Sent,
            sender: clone_opt_string(&m.sender),
            is_read: match m.is_read {
                Some(b) => b,
                None => true,
            },
        };
        let ghost prev = out@;
        out.push(record);
        proof {
            assert(views(out@) =~= views(prev).push(record@));
            assert(items@.take(i as int + 1) =~= items@.take(i as int).push(*m));
            assert(items@.take(i as int + 1).map_values(|m: GmWebViewMessage| message_from_webview(thread_id@, m))
                =~= items@.take(i as int).map_values(|m: GmWebViewMessage| message_from_webview(thread_id@, m)).push(
                message_from_webview(thread_id@, *m),
            ));
        }
        i = i + 1;
    }
    proof {
        assert(items@.take(items@.len() as int) =~= items@);
    }
    out
}

/// Whether every character of `s` is an ASCII digit.
pub open spec fn all_digits(s: Seq<char>) -> bool {
    forall|i: int| 0 <= i < s.len() ==> '0' <= #[trigger] s[i] <= '9'
}

/// The number that the decimal digits `s` denote.
pub open spec fn digits_value(s: Seq<char>) -> int
    decreases s.len(),
{
    if s.len() == 0 {
        0
    } else {
        digits_value(s.drop_last()) * 10 + (s.last() as int - '0' as int)
    }
}

/// What parsing `s` as a `u64` gives: an optional `+` and then one or more
/// decimal digits whose value fits.
pub open spec fn parsed_u64(s: Seq<char>) -> Option<u64> {
    let body = if s.len() > 0 && s[0] == '+' {
        s.drop_first()
    } else {
        s
    };
    if body.len() > 0 && all_digits(body) && digits_value(body) <= u64::MAX {
        Some(digits_value(body) as u64)
    } else {
        None
    }
}

proof fn lemma_digits_value_grows(s: Seq<char>, k: int)
    requires
        all_digits(s),
        0 <= k <= s.len(),
    ensures
        digits_value(s.take(k)) <= digits_value(s),
        0 <= digits_value(s),
    decreases s.len() - k,
{
    if k < s.len() {
        lemma_digits_value_grows(s, k + 1);
        assert(s.take(k + 1).drop_last() =~= s.take(k));
        lemma_digits_value_nonneg(s.take(k));
    } else {
        assert(s.take(k) =~= s);
    }
    lemma_digits_value_nonneg(s);
}

proof fn lemma_digits_value_nonneg(s: Seq<char>)
    requires
        all_digits(s),
    ensures
        0 <= digits_value(s),
    decreases s.len(),
{
    if s.len() > 0 {
        lemma_digits_value_nonneg(s.drop_last());
    }
}

/// Parses a decimal `u64` (an optional `+` and then digits), as `str::parse::<u64>` does.
pub fn parse_u64(s: &str) -> (r: Option<u64>)
    ensures
        r == parsed_u64(s@),
{
    let n = s.unicode_len();
    if n == 0 {
        return None;
    }
    let start: usize = if s.get_char(0) == '+' {
        1
    } else {
        0
    };
    let ghost body = if s@.len() > 0 && s@[0] == '+' {
        s@.drop_first()
    } else {
        s@
    };
    proof {
        assert(body =~= s@.skip(start as int));
    }
    if start == n {
        return None;
    }
    let mut value: u128 = 0;
    let mut i: usize = start;
    while i < n
        invariant
            start <= i <= n,
            n == s@.len(),
            body == s@.skip(start as int),
            body == (if s@.len() > 0 && s@[0] == '+' {
                s@.drop_first()
            } else {
                s@
            }),
            all_digits(body.take(i - start)),
            value == digits_value(body.take(i - start)),
            value <= u64::MAX,
        decreases n - i,
    {
        let c = s.get_char(i);
        if !('0' <= c && c <= '9') {
            proof {
                assert(body.len() == n - start);
                assert(body[i - start] == c);
                assert(!all_digits(body));
            }
            return None;
        }
        let d: u128 = (c as u32 - '0' as u32) as u128;
        proof {
            assert(body.take(i - start + 1).drop_last() =~= body.take(i - start));
            assert(body.take(i - start + 1).last() == c);
            assert(all_digits(body.take(i - start + 1)));
        }
        let ghost k = (i - start) as int;
        proof {
            assert(digits_value(body.take(k + 1)) == digits_value(body.take(k)) * 10 + (c as int
                - '0' as int));
        }
        value = value * 10 + d;
        i = i + 1;
        if value > u64::MAX as u128 {
            proof {
                assert(value == digits_value(body.take(k + 1)));
                assert(body.len() == n - start);
                if all_digits(body) {
                    lemma_digits_value_grows(body, k + 1);
                }
            }
            return None;
        }
    }
    proof {
        assert(body.take(n - start) =~= body);
    }
    Some(value as u64)
}

/// The canonical reason phrase of HTTP status `code` as `http`'s
/// `StatusCode` gives it, or "<unknown status code>" for a code without one.
pub uninterp spec fn http_status_reason(code: u16) -> Seq<char>;

/// The text of HTTP status `code`, as a network error names it.
pub open spec fn http_status_text(code: u16) -> Seq<char> {
    decimal_nat(code as nat) + seq![' '] + http_status_reason(code)
}

/// The display text of HTTP status `code` (`reqwest::StatusCode::from_u16`,
/// which is `http`'s `StatusCode`, then `Display`): the code in decimal, a
/// space, and its canonical reason phrase or "<unknown status code>". Codes
/// outside 100 to 999 are no status code.
#[verifier::external_body]
fn status_code_text(code: u16) -> (r: String)
    requires
        100 <= code <= 999,
    ensures
        r@ == decimal_nat(code as nat) + seq![' '] + http_status_reason(code),
{
    match reqwest::StatusCode::from_u16(code) {
        Ok(status) => status.to_string(),
        Err(e) => e.to_string(),
    }
}

/// How an HTTP response status is handled: success passes; 401 and 403 mean
/// the session is no longer valid; 429 is rate limiting, with the wait from
/// the `Retry-After` header when it holds a number of seconds; anything else
/// is a network error naming the status as it displays (its code and reason phrase).
pub fn classify_response_status(status: u16, retry_after: Option<&str>) -> (r: Result<(), GmError>)
    requires
        100 <= status <= 999,
    ensures
        200 <= status <= 299 ==> r is Ok,
        (status == 401 || status == 403) ==> r matches Err(GmError::NotAuthenticated),
        status == 429 ==> r == Err::<(), GmError>(
            GmError::RateLimited {
                retry_after_secs: match retry_after {
                    Some(h) => parsed_u64(h@),
                    None => None,
                },
            },
        ),
        !(200 <= status <= 299 || status == 401 || status == 403 || status == 429) ==> (r matches Err(
            GmError::NetworkError { message },
        ) && message@ == "HTTP error: "@ + http_status_text(status)),
{
    if 200 <= status && status <= 299 {
        return Ok(());
    }
    if status == 401 || status == 403 {
        Err(GmError::NotAuthenticated)
    } else if status == 429 {
        let retry_after_secs = match retry_after {
            Some(h) => parse_u64(h),
            None => None,
        };
        Err(GmError::RateLimited { retry_after_secs })
    } else {
        let status_text = status_code_text(status);
        Err(GmError::NetworkError { message: concat_str("HTTP error: ", status_text.as_str()) })
    }
}

/// Checks an HTTP response status for the session: the classification of
/// [`classify_response_status`], and on 401 or 403 (the session is no longer
/// valid) the session is marked expired; any other status leaves it as it was.
pub fn check_response_status(
    session: &mut GMSessionState,
    status: u16,
    retry_after: Option<&str>,
) -> (r: Result<(), GmError>)
    requires
        100 <= status <= 999,
    ensures
        200 <= status <= 299 ==> r is Ok,
        (status == 401 || status == 403) ==> r matches Err(GmError::NotAuthenticated),
        status == 429 ==> r == Err::<(), GmError>(
            GmError::RateLimited {
                retry_after_secs: match retry_after {
                    Some(h) => parsed_u64(h@),
                    None => None,
                },
            },
        ),
        !(200 <= status <= 299 || status == 401 || status == 403 || status == 429) ==> (r matches Err(
            GmError::NetworkError { message },
        ) && message@ == "HTTP error: "@ + http_status_text(status)),
        (status == 401 || status == 403) ==> {
            &&& final(session).pairing_state() == GMPairingState::Expired
            &&& final(session).session() == old(session).session()
        },
        !(status == 401 || status == 403) ==> *final(session) == *old(session),
{
    let r = classify_response_status(status, retry_after);
    if status == 401 || status == 403 {
        session.mark_expired();
    }
    r
}

} // verus!
