//! The users that the identity provider has announced.

use vstd::prelude::*;

use crate::remote::directory::Directory;
use crate::remote::workspace_members::IdentityError;
use crate::text::{copy_text, optional_text, text_of};

verus! {

/// A user, as the identity provider announced it.
#[derive(Debug, Clone)]
pub struct User {
    pub id: u128,
    pub email: String,
    pub first_name: Option<String>,
    pub last_name: Option<String>,
    pub username: Option<String>,
    pub avatar_url: Option<String>,
    pub created_at: i64,
    pub updated_at: i64,
}

/// What is shown of a user beside its work.
#[derive(Debug, Clone)]
pub struct UserData {
    pub user_id: u128,
    pub first_name: Option<String>,
    pub last_name: Option<String>,
    pub username: Option<String>,
    pub avatar_url: Option<String>,
}

/// What the identity provider announces of a user.
#[derive(Debug, Clone, Copy)]
pub struct UpsertUser<'a> {
    pub id: u128,
    pub email: &'a str,
    pub first_name: Option<&'a str>,
    pub last_name: Option<&'a str>,
    pub username: Option<&'a str>,
}

/// No two users share an identifier.
pub open spec fn users_wf(rows: Seq<User>) -> bool {
    forall|i: int, j: int|
        0 <= i < rows.len() && 0 <= j < rows.len() && i != j ==> (#[trigger] rows[i]).id != (
        #[trigger] rows[j]).id
}

/// Whether a user has the identifier.
pub open spec fn has_user(rows: Seq<User>, id: u128) -> bool {
    exists|i: int| 0 <= i < rows.len() && (#[trigger] rows[i]).id == id
}

/// The index of the user with the identifier.
pub open spec fn user_index(rows: Seq<User>, id: u128) -> int {
    choose|i: int| 0 <= i < rows.len() && (#[trigger] rows[i]).id == id
}

/// Under the constraint of the table, an index that holds the user is the
/// user's index.
pub proof fn lemma_user_index_is(rows: Seq<User>, id: u128, i: int)
    requires
        users_wf(rows),
        0 <= i < rows.len(),
        rows[i].id == id,
    ensures
        has_user(rows, id),
        user_index(rows, id) == i,
{
    let j = user_index(rows, id);
    if i != j {
        assert(rows[i].id != rows[j].id);
    }
}

/// What is on record of a user once it was announced at `now`: the
/// announced address and names, the avatar that was on record, and the time
/// of creation that was on record or, for a user unknown before, `now`.
pub open spec fn is_announced(row: User, before: Option<User>, user: UpsertUser, now: i64) -> bool {
    &&& row.id == user.id
    &&& row.email@ == user.email@
    &&& text_of(row.first_name) == optional_text(user.first_name)
    &&& text_of(row.last_name) == optional_text(user.last_name)
    &&& text_of(row.username) == optional_text(user.username)
    &&& row.avatar_url == match before {
        Some(known) => known.avatar_url,
        None => None,
    }
    &&& row.created_at == match before {
        Some(known) => known.created_at,
        None => now,
    }
    &&& row.updated_at == now
}

/// Whether `shown` is `row` without its avatar.
pub open spec fn is_without_avatar(shown: User, row: User) -> bool {
    shown == (User { avatar_url: None, ..row })
}

/// The table of users.
pub struct UserTable {
    rows: Vec<User>,
}

fn optional_copy(text: Option<&str>) -> (copy: Option<String>)
    ensures
        text_of(copy) == optional_text(text),
{
    match text {
        Some(t) => Some(t.to_owned()),
        None => None,
    }
}

impl User {
    /// A copy that is equal to the user.
    pub fn duplicate(&self) -> (copy: User)
        ensures
            copy == *self,
    {
        User {
            id: self.id,
            email: self.email.clone(),
            first_name: copy_text(&self.first_name),
            last_name: copy_text(&self.last_name),
            username: copy_text(&self.username),
            avatar_url: copy_text(&self.avatar_url),
            created_at: self.created_at,
            updated_at: self.updated_at,
        }
    }

    fn without_avatar(&self) -> (shown: User)
        ensures
            is_without_avatar(shown, *self),
    {
        User {
            id: self.id,
            email: self.email.clone(),
            first_name: copy_text(&self.first_name),
            last_name: copy_text(&self.last_name),
            username: copy_text(&self.username),
            avatar_url: None,
            created_at: self.created_at,
            updated_at: self.updated_at,
        }
    }

    /// What is shown of the user beside its work.
    pub fn data(&self) -> (data: UserData)
        ensures
            data.user_id == self.id,
            data.first_name == self.first_name,
            data.last_name == self.last_name,
            data.username == self.username,
            data.avatar_url is None,
    {
        UserData {
            user_id: self.id,
            first_name: copy_text(&self.first_name),
            last_name: copy_text(&self.last_name),
            username: copy_text(&self.username),
            avatar_url: None,
        }
    }
}

impl UserTable {
    /// The rows, in the order in which the users were first announced.
    pub closed spec fn rows(&self) -> Seq<User> {
        self.rows@
    }

    /// No two users share an identifier.
    pub open spec fn wf(&self) -> bool {
        users_wf(self.rows())
    }

    /// A table without users.
    pub fn new() -> (table: UserTable)
        ensures
            table.wf(),
            table.rows() == Seq::<User>::empty(),
    {
        UserTable { rows: Vec::new() }
    }

    /// The rows, for reading.
    pub fn entries(&self) -> (rows: &Vec<User>)
        ensures
            rows@ == self.rows(),
    {
        &self.rows
    }

    fn locate(&self, id: u128) -> (found: Option<usize>)
        requires
            self.wf(),
        ensures
            found is Some == has_user(self.rows(), id),
            found matches Some(i) ==> i == user_index(self.rows(), id) && i < self.rows().len(),
    {
        let mut i: usize = 0;
        while i < self.rows.len()
            invariant
                i <= self.rows@.len(),
                users_wf(self.rows@),
                forall|j: int| 0 <= j < i ==> (#[trigger] self.rows@[j]).id != id,
            decreases self.rows@.len() - i,
        {
            if self.rows[i].id == id {
                proof {
                    lemma_user_index_is(self.rows@, id, i as int);
                }
                return Some(i);
            }
            i = i + 1;
        }
        None
    }

    /// The user with the identifier.
    pub fn find(&self, id: u128) -> (found: Option<&User>)
        requires
            self.wf(),
        ensures
            found is Some == has_user(self.rows(), id),
            found matches Some(user) ==> *user == self.rows()[user_index(self.rows(), id)],
    {
        match self.locate(id) {
            Some(i) => Some(&self.rows[i]),
            None => None,
        }
    }

    /// Writes what the identity provider announced of a user at `now`, over
    /// what was on record of it, if anything was. Returns what is on record
    /// now, without the avatar.
    pub fn upsert(&mut self, user: UpsertUser<'_>, now: i64) -> (shown: User)
        requires
            old(self).wf(),
        ensures
            final(self).wf(),
            if has_user(old(self).rows(), user.id) {
                let i = user_index(old(self).rows(), user.id);
                &&& final(self).rows() == old(self).rows().update(i, final(self).rows()[i])
                &&& is_announced(final(self).rows()[i], Some(old(self).rows()[i]), user, now)
                &&& is_without_avatar(shown, final(self).rows()[i])
            } else {
                &&& final(self).rows().len() == old(self).rows().len() + 1
                &&& final(self).rows().drop_last() == old(self).rows()
                &&& is_announced(final(self).rows().last(), None, user, now)
                &&& is_without_avatar(shown, final(self).rows().last())
            },
    {
        let ghost before = self.rows@;
        match self.locate(user.id) {
            Some(i) => {
                let known = self.rows.remove(i);
                let row = User {
                    id: known.id,
                    email: user.email.to_owned(),
                    first_name: optional_copy(user.first_name),
                    last_name: optional_copy(user.last_name),
                    username: optional_copy(user.username),
                    avatar_url: known.avatar_url,
                    created_at: known.created_at,
                    updated_at: now,
                };
                let shown = row.without_avatar();
                self.rows.insert(i, row);
                proof {
                    let after = self.rows@;
                    assert(after == before.update(i as int, after[i as int]));
                    assert forall|a: int, b: int|
                        0 <= a < after.len() && 0 <= b < after.len() && a != b implies (
                    #[trigger] after[a]).id != (#[trigger] after[b]).id by {
                        assert(before[a].id != before[b].id);
                    }
                }
                shown
            },
            None => {
                let row = User {
                    id: user.id,
                    email: user.email.to_owned(),
                    first_name: optional_copy(user.first_name),
                    last_name: optional_copy(user.last_name),
                    username: optional_copy(user.username),
                    avatar_url: None,
                    created_at: now,
                    updated_at: now,
                };
                let shown = row.without_avatar();
                self.rows.push(row);
                proof {
                    let after = self.rows@;
                    assert(after.drop_last() == before);
                    assert forall|a: int, b: int|
                        0 <= a < after.len() && 0 <= b < after.len() && a != b implies (
                    #[trigger] after[a]).id != (#[trigger] after[b]).id by {
                        if a < before.len() && b < before.len() {
                            assert(before[a].id != before[b].id);
                        } else if a < before.len() {
                            assert(before[a].id != user.id);
                        } else {
                            assert(before[b].id != user.id);
                        }
                    }
                }
                shown
            },
        }
    }

    /// Writes the avatar of the user with the identifier, or takes it off
    /// the record. Returns what is on record now, or `None` for an unknown
    /// user.
    pub fn set_avatar(&mut self, id: u128, avatar_url: Option<&str>) -> (updated: Option<User>)
        requires
            old(self).wf(),
        ensures
            final(self).wf(),
            updated is Some == has_user(old(self).rows(), id),
            updated is None ==> final(self).rows() == old(self).rows(),
            updated matches Some(user) ==> {
                let i = user_index(old(self).rows(), id);
                let known = old(self).rows()[i];
                &&& final(self).rows() == old(self).rows().update(i, user)
                &&& text_of(user.avatar_url) == optional_text(avatar_url)
                &&& user.id == known.id
                &&& user.email == known.email
                &&& user.first_name == known.first_name
                &&& user.last_name == known.last_name
                &&& user.username == known.username
                &&& user.created_at == known.created_at
                &&& user.updated_at == known.updated_at
            },
    {
        let ghost before = self.rows@;
        match self.locate(id) {
            Some(i) => {
                let known = self.rows.remove(i);
                let row = User {
                    id: known.id,
                    email: known.email,
                    first_name: known.first_name,
                    last_name: known.last_name,
                    username: known.username,
                    avatar_url: optional_copy(avatar_url),
                    created_at: known.created_at,
                    updated_at: known.updated_at,
                };
                let copy = row.duplicate();
                self.rows.insert(i, row);
                proof {
                    let after = self.rows@;
                    assert(after == before.update(i as int, copy));
                    assert forall|a: int, b: int|
                        0 <= a < after.len() && 0 <= b < after.len() && a != b implies (
                    #[trigger] after[a]).id != (#[trigger] after[b]).id by {
                        assert(before[a].id != before[b].id);
                    }
                }
                Some(copy)
            },
            None => None,
        }
    }
}

/// The user operations, on a directory of its own.
pub struct UserRepository {
    pub pool: Directory,
}

impl UserRepository {
    /// The operations on `pool`.
    pub fn new(pool: Directory) -> (repository: Self)
        ensures
            repository.pool == pool,
    {
        UserRepository { pool }
    }

    /// Writes what the identity provider announced of a user at `now`.
    pub fn upsert_user(&mut self, user: UpsertUser<'_>, now: i64) -> (r: Result<User, IdentityError>)
        requires
            old(self).pool.wf(),
        ensures
            final(self).pool.wf(),
            final(self).pool.members == old(self).pool.members,
            final(self).pool.invitations == old(self).pool.invitations,
            r is Ok,
            if has_user(old(self).pool.users.rows(), user.id) {
                let i = user_index(old(self).pool.users.rows(), user.id);
                let rows = final(self).pool.users.rows();
                &&& rows == old(self).pool.users.rows().update(i, rows[i])
                &&& is_announced(rows[i], Some(old(self).pool.users.rows()[i]), user, now)
                &&& is_without_avatar(r->Ok_0, rows[i])
            } else {
                let rows = final(self).pool.users.rows();
                &&& rows.len() == old(self).pool.users.rows().len() + 1
                &&& rows.drop_last() == old(self).pool.users.rows()
                &&& is_announced(rows.last(), None, user, now)
                &&& is_without_avatar(r->Ok_0, rows.last())
            },
    {
        Ok(self.pool.users.upsert(user, now))
    }

    /// The user with the identifier, without its avatar.
    pub fn fetch_user(&self, user_id: u128) -> (r: Result<User, IdentityError>)
        requires
            self.pool.wf(),
        ensures
            r is Ok <==> has_user(self.pool.users.rows(), user_id),
            r matches Ok(user) ==> is_without_avatar(
                user,
                self.pool.users.rows()[user_index(self.pool.users.rows(), user_id)],
            ),
            r matches Err(e) ==> e == IdentityError::NotFound,
    {
        match self.pool.users.find(user_id) {
            Some(user) => Ok(user.without_avatar()),
            None => Err(IdentityError::NotFound),
        }
    }

    /// Fetch user with avatar_url
    pub fn fetch_user_with_avatar(&self, user_id: u128) -> (r: Result<User, IdentityError>)
        requires
            self.pool.wf(),
        ensures
            r is Ok <==> has_user(self.pool.users.rows(), user_id),
            r matches Ok(user) ==> user == self.pool.users.rows()[user_index(
                self.pool.users.rows(),
                user_id,
            )],
            r matches Err(e) ==> e == IdentityError::NotFound,
    {
        match self.pool.users.find(user_id) {
            Some(user) => Ok(user.duplicate()),
            None => Err(IdentityError::NotFound),
        }
    }

    /// Update the avatar_url for a user
    pub fn update_avatar_url(&mut self, user_id: u128, avatar_url: Option<&str>) -> (r: Result<
        User,
        IdentityError,
    >)
        requires
            old(self).pool.wf(),
        ensures
            final(self).pool.wf(),
            final(self).pool.members == old(self).pool.members,
            final(self).pool.invitations == old(self).pool.invitations,
            r is Ok <==> has_user(old(self).pool.users.rows(), user_id),
            r matches Err(e) ==> e == IdentityError::NotFound && final(self).pool.users.rows() == old(
                self,
            ).pool.users.rows(),
            r matches Ok(user) ==> {
                let i = user_index(old(self).pool.users.rows(), user_id);
                &&& final(self).pool.users.rows() == old(self).pool.users.rows().update(i, user)
                &&& text_of(user.avatar_url) == optional_text(avatar_url)
                &&& user == (User { avatar_url: user.avatar_url, ..old(self).pool.users.rows()[i] })
            },
    {
        match self.pool.users.set_avatar(user_id, avatar_url) {
            Some(user) => Ok(user),
            None => Err(IdentityError::NotFound),
        }
    }
}

/// What is shown of the user with the identifier beside its work, if there
/// is such a user.
pub fn fetch_user(tx: &Directory, user_id: u128) -> (data: Option<UserData>)
    requires
        tx.wf(),
    ensures
        data is Some == has_user(tx.users.rows(), user_id),
        data matches Some(shown) ==> {
            let user = tx.users.rows()[user_index(tx.users.rows(), user_id)];
            &&& shown.user_id == user.id
            &&& shown.first_name == user.first_name
            &&& shown.last_name == user.last_name
            &&& shown.username == user.username
            &&& shown.avatar_url is None
        },
{
    match tx.users.find(user_id) {
        Some(user) => Some(user.data()),
        None => None,
    }
}

} // verus!
