//! The identity endpoints: who the caller is, and its avatar.

use vstd::prelude::*;

use crate::remote::routes::workspace_members::RequestUser;
use crate::text::copy_text;

verus! {

/// What the caller is shown of itself.
#[derive(Debug, Clone)]
pub struct IdentityResponse {
    pub user_id: u128,
    pub username: Option<String>,
    pub email: String,
    pub avatar_url: Option<String>,
}

/// The avatar to put on record, or `None` to take it off.
#[derive(Debug, Clone)]
pub struct UpdateAvatarRequest {
    pub avatar_url: Option<String>,
}

/// The avatar that is on record now.
#[derive(Debug, Clone)]
pub struct UpdateAvatarResponse {
    pub avatar_url: Option<String>,
}

/// What the caller is shown of itself: its identity as the request carries
/// it, with the avatar that is on record, if one could be read.
pub fn get_identity(user: &RequestUser, email: &str, avatar_url: Option<String>) -> (shown:
    IdentityResponse)
    ensures
        shown.user_id == user.id,
        shown.username == user.username,
        shown.email@ == email@,
        shown.avatar_url == avatar_url,
{
    IdentityResponse {
        user_id: user.id,
        username: copy_text(&user.username),
        email: email.to_owned(),
        avatar_url,
    }
}

} // verus!
