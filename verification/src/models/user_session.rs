//! Sessions of authenticated users, and when they are good.

use vstd::prelude::*;

use crate::clock::now_micros;
use crate::models::database::StoreError;
use crate::text::copy_text;

verus! {

/// Default session duration (7 days)
pub const DEFAULT_SESSION_DURATION: i64 = 604_800_000_000;

/// Maximum session inactivity before expiration (24 hours)
pub const MAX_SESSION_INACTIVITY: i64 = 86_400_000_000;

/// Failures of the session operations.
#[derive(Debug, Clone, Copy, PartialEq, Eq, Structural)]
pub enum UserSessionError {
    Database(StoreError),
    NotFound,
    Expired,
}

/// A session of an authenticated user.
#[derive(Debug, Clone)]
pub struct UserSession {
    pub id: u128,
    pub user_id: u128,
    pub cf_access_jwt_id: Option<String>,
    pub expires_at: i64,
    pub created_at: i64,
    pub last_used_at: i64,
}

impl UserSession {
    /// Whether the session has run out at `now`.
    pub open spec fn is_expired_at(self, now: i64) -> bool {
        now > self.expires_at
    }

    /// Whether the session was last used too long before `now`.
    pub open spec fn is_inactive_at(self, now: i64) -> bool {
        now - self.last_used_at > MAX_SESSION_INACTIVITY
    }

    /// Whether the session is good at `now`: neither run out nor inactive.
    pub open spec fn is_valid_at(self, now: i64) -> bool {
        !self.is_expired_at(now) && !self.is_inactive_at(now)
    }

    /// The session that is opened for a user at `now`, to last for
    /// `duration` or, where none is given, for the default duration.
    pub fn open(
        id: u128,
        user_id: u128,
        cf_access_jwt_id: Option<&str>,
        duration: Option<i64>,
        now: i64,
    ) -> (session: UserSession)
        requires
            i64::MIN <= now + (match duration {
                Some(d) => d,
                None => DEFAULT_SESSION_DURATION,
            }) <= i64::MAX,
        ensures
            session.id == id,
            session.user_id == user_id,
            crate::text::text_of(session.cf_access_jwt_id) == crate::text::optional_text(
                cf_access_jwt_id,
            ),
            session.expires_at == now + (match duration {
                Some(d) => d,
                None => DEFAULT_SESSION_DURATION,
            }),
            session.created_at == now,
            session.last_used_at == now,
    {
        let lasting = match duration {
            Some(d) => d,
            None => DEFAULT_SESSION_DURATION,
        };
        UserSession {
            id,
            user_id,
            cf_access_jwt_id: match cf_access_jwt_id {
                Some(jwt_id) => Some(jwt_id.to_owned()),
                None => None,
            },
            expires_at: now + lasting,
            created_at: now,
            last_used_at: now,
        }
    }

    /// The session, used at `now`.
    pub fn touched(&self, now: i64) -> (session: UserSession)
        ensures
            session == (UserSession { last_used_at: now, ..*self }),
    {
        UserSession {
            id: self.id,
            user_id: self.user_id,
            cf_access_jwt_id: copy_text(&self.cf_access_jwt_id),
            expires_at: self.expires_at,
            created_at: self.created_at,
            last_used_at: now,
        }
    }

    /// Check if session is expired at `now`
    pub fn expired_at(&self, now: i64) -> (b: bool)
        ensures
            b == self.is_expired_at(now),
    {
        now > self.expires_at
    }

    /// Check if session is inactive (last used too long ago) at `now`
    pub fn inactive_at(&self, now: i64) -> (b: bool)
        ensures
            b == self.is_inactive_at(now),
    {
        now as i128 - self.last_used_at as i128 > MAX_SESSION_INACTIVITY as i128
    }

    /// Check if session is valid (not expired and not inactive) at `now`
    pub fn valid_at(&self, now: i64) -> (b: bool)
        ensures
            b == self.is_valid_at(now),
    {
        !self.expired_at(now) && !self.inactive_at(now)
    }

    /// Check if session is expired, as of the system clock's reading
    pub fn is_expired(&self) -> (b: bool)
        ensures
            exists|now: i64| now >= 0 && b == #[trigger] self.is_expired_at(now),
    {
        let now = now_micros();
        let b = self.expired_at(now);
        assert(b == self.is_expired_at(now));
        b
    }

    /// Check if session is inactive, as of the system clock's reading
    pub fn is_inactive(&self) -> (b: bool)
        ensures
            exists|now: i64| now >= 0 && b == #[trigger] self.is_inactive_at(now),
    {
        let now = now_micros();
        let b = self.inactive_at(now);
        assert(b == self.is_inactive_at(now));
        b
    }

    /// Check if session is valid, as of the system clock's reading
    pub fn is_valid(&self) -> (b: bool)
        ensures
            exists|now: i64| now >= 0 && b == #[trigger] self.is_valid_at(now),
    {
        let now = now_micros();
        let b = self.valid_at(now);
        assert(b == self.is_valid_at(now));
        b
    }
}

} // verus!
