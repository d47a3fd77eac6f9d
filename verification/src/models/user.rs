//! Users, as the identity provider announces them.

use vstd::prelude::*;

use crate::models::database::StoreError;
use crate::text::{copy_text, text_of};

verus! {

/// Failures of the user operations.
#[derive(Debug, Clone, Copy, PartialEq, Eq, Structural)]
pub enum UserError {
    Database(StoreError),
    NotFound,
}

/// A user of this deployment.
#[derive(Debug, Clone)]
pub struct User {
    pub id: u128,
    pub email: String,
    pub name: String,
    pub avatar_url: Option<String>,
    pub cf_access_id: Option<String>,
    pub created_at: i64,
    pub updated_at: i64,
}

/// What the identity provider announces of a user.
#[derive(Debug, Clone)]
pub struct UpsertUser {
    pub email: String,
    pub name: String,
    pub avatar_url: Option<String>,
    pub cf_access_id: Option<String>,
}

/// What is on record once `announced` was written over `recorded`: the
/// announced value where there is one, else the recorded one.
pub open spec fn coalesce(announced: Option<String>, recorded: Option<String>) -> Option<String> {
    if announced is Some {
        announced
    } else {
        recorded
    }
}

impl User {
    /// The user that is on record once `data` was announced at `now`. A user
    /// that was unknown is entered under `id`. A known user keeps its
    /// identifier, address and time of creation, takes the announced name,
    /// and takes the announced avatar and provider identifier where they
    /// are given.
    pub fn upserted(existing: Option<&User>, data: &UpsertUser, id: u128, now: i64) -> (user: User)
        ensures
            user == match existing {
                Some(known) => User {
                    id: known.id,
                    email: known.email,
                    name: data.name,
                    avatar_url: coalesce(data.avatar_url, known.avatar_url),
                    cf_access_id: coalesce(data.cf_access_id, known.cf_access_id),
                    created_at: known.created_at,
                    updated_at: now,
                },
                None => User {
                    id,
                    email: data.email,
                    name: data.name,
                    avatar_url: data.avatar_url,
                    cf_access_id: data.cf_access_id,
                    created_at: now,
                    updated_at: now,
                },
            },
    {
        match existing {
            Some(known) => User {
                id: known.id,
                email: known.email.clone(),
                name: data.name.clone(),
                avatar_url: match &data.avatar_url {
                    Some(url) => Some(url.clone()),
                    None => copy_text(&known.avatar_url),
                },
                cf_access_id: match &data.cf_access_id {
                    Some(provider_id) => Some(provider_id.clone()),
                    None => copy_text(&known.cf_access_id),
                },
                created_at: known.created_at,
                updated_at: now,
            },
            None => User {
                id,
                email: data.email.clone(),
                name: data.name.clone(),
                avatar_url: copy_text(&data.avatar_url),
                cf_access_id: copy_text(&data.cf_access_id),
                created_at: now,
                updated_at: now,
            },
        }
    }

    /// The user with its profile changed at `now`: the name and the avatar
    /// are overwritten where they are given, and kept where they are not.
    pub fn updated(&self, name: Option<&str>, avatar_url: Option<&str>, now: i64) -> (user: User)
        ensures
            user.id == self.id,
            user.email == self.email,
            user.name@ == match name {
                Some(given) => given@,
                None => self.name@,
            },
            text_of(user.avatar_url) == match avatar_url {
                Some(url) => Some(url@),
                None => text_of(self.avatar_url),
            },
            user.cf_access_id == self.cf_access_id,
            user.created_at == self.created_at,
            user.updated_at == now,
    {
        User {
            id: self.id,
            email: self.email.clone(),
            name: match name {
                Some(given) => given.to_owned(),
                None => self.name.clone(),
            },
            avatar_url: match avatar_url {
                Some(url) => Some(url.to_owned()),
                None => copy_text(&self.avatar_url),
            },
            cf_access_id: copy_text(&self.cf_access_id),
            created_at: self.created_at,
            updated_at: now,
        }
    }
}

} // verus!
