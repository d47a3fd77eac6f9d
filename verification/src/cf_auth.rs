//! Authentication routes for Cloudflare Access integration: who is logged
//! in, and logging out.

use vstd::prelude::*;
use vstd::string::StringExecFns;

use crate::models::user::User;
use crate::models::user_session::UserSession;
use crate::text::{copy_text, decimal, decimal_text};

verus! {

/// Response for GET /api/auth/me
#[derive(Debug, Clone)]
pub struct AuthMeResponse {
    pub user: UserResponse,
    pub session: SessionResponse,
}

/// User information in auth response
#[derive(Debug, Clone)]
pub struct UserResponse {
    pub id: u128,
    pub email: String,
    pub name: String,
    pub avatar_url: Option<String>,
    pub created_at: i64,
}

/// Session information in auth response
#[derive(Debug, Clone, Copy, PartialEq, Eq, Structural)]
pub struct SessionResponse {
    pub id: u128,
    pub expires_at: i64,
    pub created_at: i64,
}

/// Response for logout operation
#[derive(Debug, Clone)]
pub struct LogoutResponse {
    pub success: bool,
    pub message: String,
}

/// Request body for logout (optional - can specify specific session or all)
#[derive(Debug, Clone, Copy, PartialEq, Eq, Structural)]
pub struct LogoutRequest {
    /// If true, logout from all sessions
    pub all_sessions: bool,
}

impl Default for LogoutRequest {
    /// A request that ends the current session only.
    fn default() -> (request: Self)
        ensures
            !request.all_sessions,
    {
        LogoutRequest { all_sessions: false }
    }
}

/// Which sessions a logout ends.
#[derive(Debug, Clone, Copy, PartialEq, Eq, Structural)]
pub enum LogoutScope {
    /// Every session of the user.
    AllSessionsOf(u128),
    /// The one session.
    Session(u128),
}

/// What the caller is shown of itself and of its session.
pub fn get_me(user: &User, session: &UserSession) -> (shown: AuthMeResponse)
    ensures
        shown.user.id == user.id,
        shown.user.email == user.email,
        shown.user.name == user.name,
        shown.user.avatar_url == user.avatar_url,
        shown.user.created_at == user.created_at,
        shown.session == (SessionResponse {
            id: session.id,
            expires_at: session.expires_at,
            created_at: session.created_at,
        }),
{
    AuthMeResponse {
        user: UserResponse {
            id: user.id,
            email: user.email.clone(),
            name: user.name.clone(),
            avatar_url: copy_text(&user.avatar_url),
            created_at: user.created_at,
        },
        session: SessionResponse {
            id: session.id,
            expires_at: session.expires_at,
            created_at: session.created_at,
        },
    }
}

/// Which sessions a logout ends: all of the user where that is asked for,
/// else the current one.
pub fn logout_scope(request: LogoutRequest, user_id: u128, session_id: u128) -> (scope: LogoutScope)
    ensures
        scope == if request.all_sessions {
            LogoutScope::AllSessionsOf(user_id)
        } else {
            LogoutScope::Session(session_id)
        },
{
    if request.all_sessions {
        LogoutScope::AllSessionsOf(user_id)
    } else {
        LogoutScope::Session(session_id)
    }
}

/// The message that reports a logout.
pub open spec fn logout_message(all_sessions: bool, ended: u64) -> Seq<char> {
    if all_sessions {
        "Logged out from "@ + decimal(ended as nat) + " session(s)"@
    } else {
        "Successfully logged out"@
    }
}

/// The report of a logout that ended `ended` sessions.
pub fn logout(request: LogoutRequest, ended: u64) -> (response: LogoutResponse)
    ensures
        response.success,
        response.message@ == logout_message(request.all_sessions, ended),
{
    if request.all_sessions {
        let mut message = String::from_str("Logged out from ");
        let count = decimal_text(ended);
        message.append(count.as_str());
        message.append(" session(s)");
        LogoutResponse { success: true, message }
    } else {
        LogoutResponse { success: true, message: String::from_str("Successfully logged out") }
    }
}

} // verus!
