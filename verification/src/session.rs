//! Session state: the WebView cookies, their activity times, and the pairing
//! state. Reading, writing and encrypting the session file happen outside.

use crate::clock::current_timestamp_millis;
use crate::models::GMPairingState;
use crate::text::clone_opt_string;
use vstd::prelude::*;

verus! {

/// A session is considered expired after this much inactivity: 7 days, in ms.
pub open spec fn inactivity_threshold_ms() -> int {
    604_800_000int
}

/// Whether a session last active at `last_active_at` has, at time `now`, been
/// inactive for too long.
pub open spec fn inactive_too_long(last_active_at: i64, now: i64) -> bool {
    now - last_active_at > inactivity_threshold_ms()
}

/// Session data stored for Google Messages.
#[derive(Debug)]
pub struct GMSession {
    /// HTTP cookies from the WebView (encrypted at rest)
    pub cookies: String,
    /// When the session was established
    pub created_at: i64,
    /// Last successful activity
    pub last_active_at: i64,
    /// User agent string to use
    pub user_agent: Option<String>,
}

impl Clone for GMSession {
    fn clone(&self) -> (r: Self)
        ensures
            r == *self,
    {
        GMSession {
            cookies: self.cookies.clone(),
            created_at: self.created_at,
            last_active_at: self.last_active_at,
            user_agent: clone_opt_string(&self.user_agent),
        }
    }
}

impl GMSession {
    /// A session from WebView cookies, established and active at `now`.
    pub fn new_at(cookies: String, now: i64) -> (r: Self)
        ensures
            r.cookies == cookies,
            r.created_at == now,
            r.last_active_at == now,
            r.user_agent is None,
    {
        GMSession { cookies, created_at: now, last_active_at: now, user_agent: None }
    }

    /// A session from WebView cookies, established and active now.
    pub fn new(cookies: String) -> (r: Self)
        ensures
            r.cookies == cookies,
            r.created_at == r.last_active_at,
            r.user_agent is None,
    {
        Self::new_at(cookies, current_timestamp_millis())
    }

    /// Whether, at time `now`, the session has been inactive for more than 7 days.
    pub fn is_likely_expired_at(&self, now: i64) -> (r: bool)
        requires
            i64::MIN <= now - self.last_active_at <= i64::MAX,
        ensures
            r == inactive_too_long(self.last_active_at, now),
    {
        now - self.last_active_at > 7 * 24 * 60 * 60 * 1000
    }

    /// Whether the session has now been inactive for more than 7 days.
    pub fn is_likely_expired(&self) -> (r: bool)
        ensures
            exists|now: i64| r == inactive_too_long(self.last_active_at, now),
    {
        let now = current_timestamp_millis();
        let elapsed: i128 = now as i128 - self.last_active_at as i128;
        let r = elapsed > 7 * 24 * 60 * 60 * 1000;
        proof {
            assert(r == inactive_too_long(self.last_active_at, now));
        }
        r
    }

    /// Marks the session active at `now`.
    pub fn touch_at(&mut self, now: i64)
        ensures
            *final(self) == (GMSession { last_active_at: now, ..*old(self) }),
    {
        self.last_active_at = now;
    }

    /// Marks the session active now.
    pub fn touch(&mut self)
        ensures
            final(self).cookies == old(self).cookies,
            final(self).created_at == old(self).created_at,
            final(self).user_agent == old(self).user_agent,
    {
        self.last_active_at = current_timestamp_millis();
    }
}

/// The session held in memory together with the pairing state.
pub struct GMSessionState {
    session: Option<GMSession>,
    pairing_state: GMPairingState,
}

impl GMSessionState {
    pub closed spec fn session(&self) -> Option<GMSession> {
        self.session
    }

    pub closed spec fn pairing_state(&self) -> GMPairingState {
        self.pairing_state
    }

    /// No session, not paired.
    pub fn new() -> (r: Self)
        ensures
            r.session() is None,
            r.pairing_state() == GMPairingState::NotPaired,
    {
        GMSessionState { session: None, pairing_state: GMPairingState::NotPaired }
    }

    pub fn get_pairing_state(&self) -> (r: GMPairingState)
        ensures
            r == self.pairing_state(),
    {
        self.pairing_state
    }

    pub fn set_pairing_state(&mut self, state: GMPairingState)
        ensures
            final(self).pairing_state() == state,
            final(self).session() == old(self).session(),
    {
        self.pairing_state = state;
    }

    /// Whether the state is `Paired`.
    pub fn is_paired(&self) -> (r: bool)
        ensures
            r == (self.pairing_state() == GMPairingState::Paired),
    {
        self.pairing_state == GMPairingState::Paired
    }

    /// Whether a session is held.
    pub fn has_session(&self) -> (r: bool)
        ensures
            r == self.session() is Some,
    {
        self.session.is_some()
    }

    /// The session's cookies, if a session is held.
    pub fn get_cookies(&self) -> (r: Option<String>)
        ensures
            r == match self.session() {
                Some(s) => Some(s.cookies),
                None => None,
            },
    {
        match &self.session {
            Some(s) => Some(s.cookies.clone()),
            None => None,
        }
    }

    /// A copy of the held session.
    pub fn get_session(&self) -> (r: Option<GMSession>)
        ensures
            r == self.session(),
    {
        match &self.session {
            Some(s) => Some(s.clone()),
            None => None,
        }
    }

    /// Adopts a newly established (and saved) session: paired.
    pub fn install_session(&mut self, session: GMSession)
        ensures
            final(self).session() == Some(session),
            final(self).pairing_state() == GMPairingState::Paired,
    {
        self.session = Some(session);
        self.pairing_state = GMPairingState::Paired;
    }

    /// Marks the held session active at `now`.
    pub fn touch_session_at(&mut self, now: i64)
        ensures
            final(self).pairing_state() == old(self).pairing_state(),
            final(self).session() == match old(self).session() {
                Some(s) => Some(GMSession { last_active_at: now, ..s }),
                None => None,
            },
    {
        if let Some(s) = &mut self.session {
            s.touch_at(now);
        }
    }

    /// Adopts a session read back from storage, at time `now`: one inactive for
    /// more than 7 days leaves the state expired and gives `false`; any other
    /// leaves it paired and gives `true`. The session is kept either way.
    pub fn apply_loaded_session(&mut self, session: GMSession, now: i64) -> (r: bool)
        requires
            i64::MIN <= now - session.last_active_at <= i64::MAX,
        ensures
            r == !inactive_too_long(session.last_active_at, now),
            final(self).session() == Some(session),
            final(self).pairing_state() == if r {
                GMPairingState::Paired
            } else {
                GMPairingState::Expired
            },
    {
        let expired = session.is_likely_expired_at(now);
        self.session = Some(session);
        if expired {
            self.pairing_state = GMPairingState::Expired;
            false
        } else {
            self.pairing_state = GMPairingState::Paired;
            true
        }
    }

    /// Drops the session (logout): not paired.
    pub fn logout(&mut self)
        ensures
            final(self).session() is None,
            final(self).pairing_state() == GMPairingState::NotPaired,
    {
        self.session = None;
        self.pairing_state = GMPairingState::NotPaired;
    }

    /// Marks the session expired.
    pub fn mark_expired(&mut self)
        ensures
            final(self).pairing_state() == GMPairingState::Expired,
            final(self).session() == old(self).session(),
    {
        self.pairing_state = GMPairingState::Expired;
    }
}

} // verus!
