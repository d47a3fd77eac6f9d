//! Invitations: time-boxed capability tokens that turn an address into a
//! member.
//!
//! An invitation starts `Pending` and ends `Accepted`, `Revoked` or
//! `Expired`; no operation leaves a terminal state.

use vstd::prelude::*;

pub use crate::api::workspaces::InvitationStatus;
use crate::clock::{is_past, now_micros};
use crate::ids::fresh_id;
use crate::order::{lists, pick, rank, Ranked};
use crate::remote::directory::Directory;
use crate::remote::workspace_members::{
    assert_admin,
    has_member,
    is_fresh_row,
    role_of,
    IdentityError,
    InvitationFault,
    MemberRole,
    WorkspaceMember,
};
use crate::text::text_eq;

verus! {

/// An invitation of an address to a workspace. Its token is all that is
/// needed to accept it.
#[derive(Debug, Clone)]
pub struct WorkspaceInvitation {
    pub id: u128,
    pub workspace_id: u128,
    pub invited_by_user_id: Option<u128>,
    pub email: String,
    pub role: MemberRole,
    pub status: InvitationStatus,
    pub token: String,
    pub expires_at: i64,
    pub created_at: i64,
    pub updated_at: i64,
}

impl WorkspaceInvitation {
    /// A copy that is equal to the invitation.
    pub fn duplicate(&self) -> (copy: WorkspaceInvitation)
        ensures
            copy == *self,
    {
        WorkspaceInvitation {
            id: self.id,
            workspace_id: self.workspace_id,
            invited_by_user_id: self.invited_by_user_id,
            email: self.email.clone(),
            role: self.role,
            status: self.status,
            token: self.token.clone(),
            expires_at: self.expires_at,
            created_at: self.created_at,
            updated_at: self.updated_at,
        }
    }

    /// The invitation in another state.
    pub open spec fn in_state(self, status: InvitationStatus) -> WorkspaceInvitation {
        WorkspaceInvitation { status, ..self }
    }
}

/// Whether `row` is a pending invitation that carries `token`.
pub open spec fn is_pending_with(row: WorkspaceInvitation, token: Seq<char>) -> bool {
    row.status == InvitationStatus::Pending && row.token@ == token
}

/// Whether `row` is a pending invitation of `email` to `workspace_id`.
pub open spec fn is_pending_for(row: WorkspaceInvitation, workspace_id: u128, email: Seq<char>) -> bool {
    row.status == InvitationStatus::Pending && row.workspace_id == workspace_id && row.email@
        == email
}

/// The table's constraints: identifiers and tokens occur once, and an
/// address has at most one pending invitation to a workspace.
pub open spec fn invitations_wf(rows: Seq<WorkspaceInvitation>) -> bool {
    &&& forall|i: int, j: int|
        0 <= i < rows.len() && 0 <= j < rows.len() && i != j ==> (#[trigger] rows[i]).id != (
        #[trigger] rows[j]).id
    &&& forall|i: int, j: int|
        0 <= i < rows.len() && 0 <= j < rows.len() && i != j ==> (#[trigger] rows[i]).token@ != (
        #[trigger] rows[j]).token@
    &&& forall|i: int, j: int|
        0 <= i < rows.len() && 0 <= j < rows.len() && i != j ==> !is_pending_for(
            #[trigger] rows[i],
            (#[trigger] rows[j]).workspace_id,
            rows[j].email@,
        ) || rows[j].status != InvitationStatus::Pending
}

/// Whether a pending invitation carries `token`.
pub open spec fn has_pending(rows: Seq<WorkspaceInvitation>, token: Seq<char>) -> bool {
    exists|i: int| 0 <= i < rows.len() && is_pending_with(#[trigger] rows[i], token)
}

/// The index of the pending invitation that carries `token`.
pub open spec fn pending_index(rows: Seq<WorkspaceInvitation>, token: Seq<char>) -> int {
    choose|i: int| 0 <= i < rows.len() && is_pending_with(#[trigger] rows[i], token)
}

/// Whether an invitation, in whatever state, carries `token`.
pub open spec fn has_token(rows: Seq<WorkspaceInvitation>, token: Seq<char>) -> bool {
    exists|i: int| 0 <= i < rows.len() && (#[trigger] rows[i]).token@ == token
}

/// The index of the invitation that carries `token`.
pub open spec fn token_index(rows: Seq<WorkspaceInvitation>, token: Seq<char>) -> int {
    choose|i: int| 0 <= i < rows.len() && (#[trigger] rows[i]).token@ == token
}

/// Whether the workspace has an invitation with the identifier.
pub open spec fn has_invitation(rows: Seq<WorkspaceInvitation>, workspace_id: u128, id: u128) -> bool {
    exists|i: int|
        0 <= i < rows.len() && (#[trigger] rows[i]).id == id && rows[i].workspace_id
            == workspace_id
}

/// The index of the workspace's invitation with the identifier.
pub open spec fn invitation_index(rows: Seq<WorkspaceInvitation>, workspace_id: u128, id: u128) -> int {
    choose|i: int|
        0 <= i < rows.len() && (#[trigger] rows[i]).id == id && rows[i].workspace_id
            == workspace_id
}

/// Whether a new invitation would break one of the table's constraints.
pub open spec fn collides(
    rows: Seq<WorkspaceInvitation>,
    id: u128,
    workspace_id: u128,
    email: Seq<char>,
    token: Seq<char>,
) -> bool {
    exists|i: int|
        0 <= i < rows.len() && ((#[trigger] rows[i]).id == id || rows[i].token@ == token
            || is_pending_for(rows[i], workspace_id, email))
}

/// Whether two invitations cannot stand in one table: they share the
/// identifier or the token, or both are pending for one address in one
/// workspace.
pub open spec fn is_clash(known: WorkspaceInvitation, row: WorkspaceInvitation) -> bool {
    ||| known.id == row.id
    ||| known.token@ == row.token@
    ||| (known.status == InvitationStatus::Pending && row.status == InvitationStatus::Pending
        && known.workspace_id == row.workspace_id && known.email@ == row.email@)
}

/// Whether an invitation cannot be entered into the table.
pub open spec fn clashes(rows: Seq<WorkspaceInvitation>, row: WorkspaceInvitation) -> bool {
    exists|i: int| 0 <= i < rows.len() && is_clash(#[trigger] rows[i], row)
}

/// What accepting `token` as `user_id` at `now` comes to.
pub open spec fn accept_outcome(
    members: Seq<WorkspaceMember>,
    invitations: Seq<WorkspaceInvitation>,
    token: Seq<char>,
    user_id: u128,
    now: i64,
) -> Result<(u128, MemberRole), IdentityError> {
    if !has_pending(invitations, token) {
        Err(IdentityError::InvitationError(InvitationFault::Invalid))
    } else {
        let invitation = invitations[pending_index(invitations, token)];
        if is_past(invitation.expires_at, now) {
            Err(IdentityError::InvitationError(InvitationFault::Expired))
        } else if has_member(members, invitation.workspace_id, user_id) {
            Err(IdentityError::InvitationError(InvitationFault::AlreadyMember))
        } else {
            Ok((invitation.workspace_id, invitation.role))
        }
    }
}

/// The invitations after accepting `token` as `user_id` at `now`: the
/// pending invitation becomes `Expired` where its time has run out and
/// `Accepted` where the acceptance succeeds; nothing else changes.
pub open spec fn invitations_after_accept(
    members: Seq<WorkspaceMember>,
    invitations: Seq<WorkspaceInvitation>,
    token: Seq<char>,
    user_id: u128,
    now: i64,
) -> Seq<WorkspaceInvitation> {
    if !has_pending(invitations, token) {
        invitations
    } else {
        let i = pending_index(invitations, token);
        let invitation = invitations[i];
        if is_past(invitation.expires_at, now) {
            invitations.update(i, invitation.in_state(InvitationStatus::Expired))
        } else if has_member(members, invitation.workspace_id, user_id) {
            invitations
        } else {
            invitations.update(i, invitation.in_state(InvitationStatus::Accepted))
        }
    }
}

/// The members after accepting `token` as `user_id` at `now`: a successful
/// acceptance appends the membership that the invitation describes, with the
/// inviter on record; anything else leaves the members alone.
pub open spec fn members_after_accept(
    before: Seq<WorkspaceMember>,
    after: Seq<WorkspaceMember>,
    invitations: Seq<WorkspaceInvitation>,
    token: Seq<char>,
    user_id: u128,
    now: i64,
) -> bool {
    if accept_outcome(before, invitations, token, user_id, now) is Ok {
        let invitation = invitations[pending_index(invitations, token)];
        &&& after.len() == before.len() + 1
        &&& after.drop_last() == before
        &&& is_fresh_row(
            after.last(),
            invitation.workspace_id,
            user_id,
            invitation.role,
            invitation.invited_by_user_id,
            now,
        )
    } else {
        after == before
    }
}

/// Under the table's constraints an index that holds a pending invitation
/// with the token is the index of that invitation.
pub proof fn lemma_pending_index_is(rows: Seq<WorkspaceInvitation>, token: Seq<char>, i: int)
    requires
        invitations_wf(rows),
        0 <= i < rows.len(),
        is_pending_with(rows[i], token),
    ensures
        has_pending(rows, token),
        pending_index(rows, token) == i,
{
    let j = pending_index(rows, token);
    assert(is_pending_with(rows[j], token));
    if i != j {
        assert(rows[i].token@ != rows[j].token@);
    }
}

/// Moving one invitation to a terminal state keeps the table's constraints.
pub proof fn lemma_settle_keeps_wf(rows: Seq<WorkspaceInvitation>, i: int, status: InvitationStatus)
    requires
        invitations_wf(rows),
        0 <= i < rows.len(),
        status.is_terminal(),
    ensures
        invitations_wf(rows.update(i, rows[i].in_state(status))),
{
    let after = rows.update(i, rows[i].in_state(status));
    assert forall|a: int, b: int|
        0 <= a < after.len() && 0 <= b < after.len() && a != b implies (#[trigger] after[a]).id != (
    #[trigger] after[b]).id by {
        assert(rows[a].id != rows[b].id);
    }
    assert forall|a: int, b: int|
        0 <= a < after.len() && 0 <= b < after.len() && a != b implies (#[trigger] after[a]).token@
        != (#[trigger] after[b]).token@ by {
        assert(rows[a].token@ != rows[b].token@);
    }
    assert forall|a: int, b: int|
        0 <= a < after.len() && 0 <= b < after.len() && a != b implies !is_pending_for(
        #[trigger] after[a],
        (#[trigger] after[b]).workspace_id,
        after[b].email@,
    ) || after[b].status != InvitationStatus::Pending by {
        assert(!is_pending_for(rows[a], rows[b].workspace_id, rows[b].email@) || rows[b].status
            != InvitationStatus::Pending);
    }
}

/// Invitations are listed from the newest to the oldest.
impl Ranked for WorkspaceInvitation {
    open spec fn precedes(&self, other: &Self) -> bool {
        self.created_at >= other.created_at
    }

    fn comes_first(&self, other: &Self) -> (b: bool) {
        self.created_at >= other.created_at
    }

    proof fn lemma_rank_total(a: &Self, b: &Self) {
    }

    proof fn lemma_rank_transitive(a: &Self, b: &Self, c: &Self) {
    }
}

/// The invitations to `workspace_id`, in row order.
pub open spec fn invitations_of_workspace<'a>(
    rows: Seq<WorkspaceInvitation>,
    workspace_id: u128,
) -> Seq<&'a WorkspaceInvitation> {
    pick(rows, |row: WorkspaceInvitation| row.workspace_id == workspace_id)
}

/// The table of invitations.
pub struct InvitationTable {
    rows: Vec<WorkspaceInvitation>,
}

impl InvitationTable {
    /// The rows, in the order in which they were created.
    pub closed spec fn rows(&self) -> Seq<WorkspaceInvitation> {
        self.rows@
    }

    /// The table meets its constraints.
    pub open spec fn wf(&self) -> bool {
        invitations_wf(self.rows())
    }

    /// A table without invitations.
    pub fn new() -> (table: InvitationTable)
        ensures
            table.wf(),
            table.rows() == Seq::<WorkspaceInvitation>::empty(),
    {
        InvitationTable { rows: Vec::new() }
    }

    /// The rows, for reading.
    pub fn entries(&self) -> (rows: &Vec<WorkspaceInvitation>)
        ensures
            rows@ == self.rows(),
    {
        &self.rows
    }

    /// The invitations to the workspace, newest first.
    pub fn list(&self, workspace_id: u128) -> (invitations: Vec<&WorkspaceInvitation>)
        ensures
            lists(invitations@, invitations_of_workspace(self.rows(), workspace_id)),
    {
        let mut selected: Vec<&WorkspaceInvitation> = Vec::new();
        let mut i: usize = 0;
        while i < self.rows.len()
            invariant
                i <= self.rows@.len(),
                selected@ == invitations_of_workspace(self.rows@.take(i as int), workspace_id),
            decreases self.rows@.len() - i,
        {
            assert(self.rows@.take(i + 1).drop_last() == self.rows@.take(i as int));
            if self.rows[i].workspace_id == workspace_id {
                selected.push(&self.rows[i]);
            }
            i = i + 1;
        }
        assert(self.rows@.take(i as int) == self.rows@);
        rank(selected)
    }

    fn find_pending(&self, token: &str) -> (found: Option<usize>)
        requires
            self.wf(),
        ensures
            found is Some == has_pending(self.rows(), token@),
            found matches Some(i) ==> i == pending_index(self.rows(), token@) && i
                < self.rows().len(),
    {
        let mut i: usize = 0;
        while i < self.rows.len()
            invariant
                i <= self.rows@.len(),
                invitations_wf(self.rows@),
                forall|j: int| 0 <= j < i ==> !is_pending_with(#[trigger] self.rows@[j], token@),
            decreases self.rows@.len() - i,
        {
            if self.rows[i].status.is_pending() && text_eq(self.rows[i].token.as_str(), token) {
                proof {
                    lemma_pending_index_is(self.rows@, token@, i as int);
                }
                return Some(i);
            }
            i = i + 1;
        }
        None
    }

    fn find_token(&self, token: &str) -> (found: Option<usize>)
        requires
            self.wf(),
        ensures
            found is Some == has_token(self.rows(), token@),
            found matches Some(i) ==> i == token_index(self.rows(), token@) && i
                < self.rows().len(),
    {
        let mut i: usize = 0;
        while i < self.rows.len()
            invariant
                i <= self.rows@.len(),
                invitations_wf(self.rows@),
                forall|j: int| 0 <= j < i ==> (#[trigger] self.rows@[j]).token@ != token@,
            decreases self.rows@.len() - i,
        {
            if text_eq(self.rows[i].token.as_str(), token) {
                proof {
                    let j = token_index(self.rows@, token@);
                    assert(self.rows@[i as int].token@ == token@);
                    assert(self.rows@[j].token@ == token@);
                    if j != i {
                        assert(self.rows@[i as int].token@ != self.rows@[j].token@);
                    }
                }
                return Some(i);
            }
            i = i + 1;
        }
        None
    }

    fn find_in_workspace(&self, workspace_id: u128, id: u128) -> (found: Option<usize>)
        requires
            self.wf(),
        ensures
            found is Some == has_invitation(self.rows(), workspace_id, id),
            found matches Some(i) ==> i == invitation_index(self.rows(), workspace_id, id) && i
                < self.rows().len(),
    {
        let mut i: usize = 0;
        while i < self.rows.len()
            invariant
                i <= self.rows@.len(),
                invitations_wf(self.rows@),
                forall|j: int|
                    0 <= j < i ==> !((#[trigger] self.rows@[j]).id == id && self.rows@[j].workspace_id
                        == workspace_id),
            decreases self.rows@.len() - i,
        {
            if self.rows[i].id == id && self.rows[i].workspace_id == workspace_id {
                proof {
                    let j = invitation_index(self.rows@, workspace_id, id);
                    assert(self.rows@[i as int].id == id);
                    assert(self.rows@[j].id == id);
                    if j != i {
                        assert(self.rows@[i as int].id != self.rows@[j].id);
                    }
                }
                return Some(i);
            }
            i = i + 1;
        }
        None
    }

    fn would_collide(&self, id: u128, workspace_id: u128, email: &str, token: &str) -> (b: bool)
        ensures
            b == collides(self.rows(), id, workspace_id, email@, token@),
    {
        let mut i: usize = 0;
        while i < self.rows.len()
            invariant
                i <= self.rows@.len(),
                forall|j: int|
                    0 <= j < i ==> !((#[trigger] self.rows@[j]).id == id || self.rows@[j].token@
                        == token@ || is_pending_for(self.rows@[j], workspace_id, email@)),
            decreases self.rows@.len() - i,
        {
            let row = &self.rows[i];
            if row.id == id || text_eq(row.token.as_str(), token) || (row.status.is_pending()
                && row.workspace_id == workspace_id && text_eq(row.email.as_str(), email)) {
                assert(self.rows@[i as int].id == id || self.rows@[i as int].token@ == token@
                    || is_pending_for(self.rows@[i as int], workspace_id, email@));
                return true;
            }
            i = i + 1;
        }
        false
    }

    fn settle(&mut self, i: usize, status: InvitationStatus)
        requires
            old(self).wf(),
            i < old(self).rows().len(),
            status.is_terminal(),
        ensures
            final(self).wf(),
            final(self).rows() == old(self).rows().update(
                i as int,
                old(self).rows()[i as int].in_state(status),
            ),
    {
        let row = self.rows.remove(i);
        let settled = WorkspaceInvitation {
            id: row.id,
            workspace_id: row.workspace_id,
            invited_by_user_id: row.invited_by_user_id,
            email: row.email,
            role: row.role,
            status,
            token: row.token,
            expires_at: row.expires_at,
            created_at: row.created_at,
            updated_at: row.updated_at,
        };
        self.rows.insert(i, settled);
        proof {
            let before = old(self).rows@;
            assert(self.rows@ == before.update(i as int, before[i as int].in_state(status)));
            lemma_settle_keeps_wf(before, i as int, status);
        }
    }

    /// Enters an invitation as it is on record elsewhere, in whatever state
    /// it is. An invitation that would break a constraint of the table is
    /// refused, and the table stays as it is.
    pub fn restore(&mut self, row: WorkspaceInvitation) -> (entered: bool)
        requires
            old(self).wf(),
        ensures
            final(self).wf(),
            entered == !clashes(old(self).rows(), row),
            final(self).rows() == if entered {
                old(self).rows().push(row)
            } else {
                old(self).rows()
            },
    {
        let mut i: usize = 0;
        while i < self.rows.len()
            invariant
                i <= self.rows@.len(),
                self.rows@ == old(self).rows@,
                invitations_wf(self.rows@),
                forall|j: int| 0 <= j < i ==> !is_clash(#[trigger] self.rows@[j], row),
            decreases self.rows@.len() - i,
        {
            let known = &self.rows[i];
            if known.id == row.id || text_eq(known.token.as_str(), row.token.as_str()) || (
            known.status.is_pending() && row.status.is_pending() && known.workspace_id
                == row.workspace_id && text_eq(known.email.as_str(), row.email.as_str())) {
                assert(is_clash(self.rows@[i as int], row));
                return false;
            }
            i = i + 1;
        }
        let ghost before = self.rows@;
        self.rows.push(row);
        proof {
            let after = self.rows@;
            let n = before.len() as int;
            assert forall|a: int, b: int|
                0 <= a < after.len() && 0 <= b < after.len() && a != b implies (
            #[trigger] after[a]).id != (#[trigger] after[b]).id by {
                if a < n && b < n {
                    assert(before[a].id != before[b].id);
                } else if a < n {
                    assert(!is_clash(before[a], row));
                } else {
                    assert(!is_clash(before[b], row));
                }
            }
            assert forall|a: int, b: int|
                0 <= a < after.len() && 0 <= b < after.len() && a != b implies (
            #[trigger] after[a]).token@ != (#[trigger] after[b]).token@ by {
                if a < n && b < n {
                    assert(before[a].token@ != before[b].token@);
                } else if a < n {
                    assert(!is_clash(before[a], row));
                } else {
                    assert(!is_clash(before[b], row));
                }
            }
            assert forall|a: int, b: int|
                0 <= a < after.len() && 0 <= b < after.len() && a != b implies !is_pending_for(
                #[trigger] after[a],
                (#[trigger] after[b]).workspace_id,
                after[b].email@,
            ) || after[b].status != InvitationStatus::Pending by {
                if a < n && b < n {
                    assert(!is_pending_for(before[a], before[b].workspace_id, before[b].email@)
                        || before[b].status != InvitationStatus::Pending);
                } else if a < n {
                    assert(!is_clash(before[a], row));
                } else {
                    assert(!is_clash(before[b], row));
                }
            }
        }
        true
    }

    fn append(&mut self, row: WorkspaceInvitation)
        requires
            old(self).wf(),
            !collides(old(self).rows(), row.id, row.workspace_id, row.email@, row.token@),
        ensures
            final(self).wf(),
            final(self).rows() == old(self).rows().push(row),
    {
        self.rows.push(row);
        proof {
            let before = old(self).rows@;
            let after = self.rows@;
            let n = before.len() as int;
            assert forall|a: int| 0 <= a < n implies (#[trigger] before[a]).id != row.id
                && before[a].token@ != row.token@ && !is_pending_for(
                before[a],
                row.workspace_id,
                row.email@,
            ) by {}
            assert forall|a: int, b: int|
                0 <= a < after.len() && 0 <= b < after.len() && a != b implies (
            #[trigger] after[a]).id != (#[trigger] after[b]).id by {
                if a < n && b < n {
                    assert(before[a].id != before[b].id);
                } else if a < n {
                    assert(before[a].id != row.id);
                } else {
                    assert(before[b].id != row.id);
                }
            }
            assert forall|a: int, b: int|
                0 <= a < after.len() && 0 <= b < after.len() && a != b implies (
            #[trigger] after[a]).token@ != (#[trigger] after[b]).token@ by {
                if a < n && b < n {
                    assert(before[a].token@ != before[b].token@);
                } else if a < n {
                    assert(before[a].token@ != row.token@);
                } else {
                    assert(before[b].token@ != row.token@);
                }
            }
            assert forall|a: int, b: int|
                0 <= a < after.len() && 0 <= b < after.len() && a != b implies !is_pending_for(
                #[trigger] after[a],
                (#[trigger] after[b]).workspace_id,
                after[b].email@,
            ) || after[b].status != InvitationStatus::Pending by {
                if a < n && b < n {
                    assert(!is_pending_for(before[a], before[b].workspace_id, before[b].email@)
                        || before[b].status != InvitationStatus::Pending);
                } else if a < n {
                    assert(!is_pending_for(before[a], row.workspace_id, row.email@));
                } else {
                    assert(!is_pending_for(before[b], row.workspace_id, row.email@));
                }
            }
        }
    }

    fn delete(&mut self, i: usize)
        requires
            old(self).wf(),
            i < old(self).rows().len(),
        ensures
            final(self).wf(),
            final(self).rows() == old(self).rows().remove(i as int),
    {
        let _ = self.rows.remove(i);
        proof {
            let before = old(self).rows@;
            let after = self.rows@;
            assert forall|a: int, b: int|
                0 <= a < after.len() && 0 <= b < after.len() && a != b implies (
            #[trigger] after[a]).id != (#[trigger] after[b]).id by {
                let a0 = if a < i { a } else { a + 1 };
                let b0 = if b < i { b } else { b + 1 };
                assert(before[a0].id != before[b0].id);
            }
            assert forall|a: int, b: int|
                0 <= a < after.len() && 0 <= b < after.len() && a != b implies (
            #[trigger] after[a]).token@ != (#[trigger] after[b]).token@ by {
                let a0 = if a < i { a } else { a + 1 };
                let b0 = if b < i { b } else { b + 1 };
                assert(before[a0].token@ != before[b0].token@);
            }
            assert forall|a: int, b: int|
                0 <= a < after.len() && 0 <= b < after.len() && a != b implies !is_pending_for(
                #[trigger] after[a],
                (#[trigger] after[b]).workspace_id,
                after[b].email@,
            ) || after[b].status != InvitationStatus::Pending by {
                let a0 = if a < i { a } else { a + 1 };
                let b0 = if b < i { b } else { b + 1 };
                assert(!is_pending_for(before[a0], before[b0].workspace_id, before[b0].email@)
                    || before[b0].status != InvitationStatus::Pending);
            }
        }
    }
}

/// What `create` leaves behind and returns: an invitation is appended for a
/// top-tier inviter where it breaks no constraint of the table; a caller
/// below the top tier is denied, and a collision is reported as a pending
/// invitation that exists. A failure changes nothing.
pub open spec fn created(
    before: Directory,
    after: Directory,
    r: Result<WorkspaceInvitation, IdentityError>,
    id: u128,
    now: i64,
    workspace_id: u128,
    invited_by_user_id: u128,
    email: Seq<char>,
    role: MemberRole,
    expires_at: i64,
    token: Seq<char>,
) -> bool {
    let is_admin = role_of(before.members.rows(), workspace_id, invited_by_user_id) == Some(
        MemberRole::Admin,
    );
    let clash = collides(before.invitations.rows(), id, workspace_id, email, token);
    &&& after.users == before.users
    &&& after.members.rows() == before.members.rows()
    &&& match r {
        Ok(invitation) => {
            &&& is_admin
            &&& !clash
            &&& after.invitations.rows() == before.invitations.rows().push(invitation)
            &&& invitation.id == id
            &&& invitation.workspace_id == workspace_id
            &&& invitation.invited_by_user_id == Some(invited_by_user_id)
            &&& invitation.email@ == email
            &&& invitation.role == role
            &&& invitation.status == InvitationStatus::Pending
            &&& invitation.token@ == token
            &&& invitation.expires_at == expires_at
            &&& invitation.created_at == now
            &&& invitation.updated_at == now
        },
        Err(e) => {
            &&& after.invitations.rows() == before.invitations.rows()
            &&& !is_admin || clash
            &&& e == if !is_admin {
                IdentityError::PermissionDenied
            } else {
                IdentityError::InvitationError(InvitationFault::PendingExists)
            }
        },
    }
}

/// What `accept` leaves behind and returns.
pub open spec fn accepted(
    before: Directory,
    after: Directory,
    r: Result<(u128, MemberRole), IdentityError>,
    token: Seq<char>,
    user_id: u128,
    now: i64,
) -> bool {
    &&& after.users == before.users
    &&& r == accept_outcome(before.members.rows(), before.invitations.rows(), token, user_id, now)
    &&& after.invitations.rows() == invitations_after_accept(
        before.members.rows(),
        before.invitations.rows(),
        token,
        user_id,
        now,
    )
    &&& members_after_accept(
        before.members.rows(),
        after.members.rows(),
        before.invitations.rows(),
        token,
        user_id,
        now,
    )
}

/// What revoking comes to: a caller below the top tier is denied, and an
/// invitation that the workspace does not have is not found.
pub open spec fn revocation_outcome(
    pool: Directory,
    workspace_id: u128,
    invitation_id: u128,
    requesting_user_id: u128,
) -> Result<(), IdentityError> {
    if role_of(pool.members.rows(), workspace_id, requesting_user_id) != Some(MemberRole::Admin) {
        Err(IdentityError::PermissionDenied)
    } else if !has_invitation(pool.invitations.rows(), workspace_id, invitation_id) {
        Err(IdentityError::NotFound)
    } else {
        Ok(())
    }
}

/// What `revoke` leaves behind and returns: a granted revocation deletes the
/// invitation, a refused one changes nothing.
pub open spec fn revoked(
    before: Directory,
    after: Directory,
    r: Result<(), IdentityError>,
    workspace_id: u128,
    invitation_id: u128,
    requesting_user_id: u128,
) -> bool {
    &&& after.users == before.users
    &&& after.members.rows() == before.members.rows()
    &&& r == revocation_outcome(before, workspace_id, invitation_id, requesting_user_id)
    &&& after.invitations.rows() == if r is Ok {
        before.invitations.rows().remove(
            invitation_index(before.invitations.rows(), workspace_id, invitation_id),
        )
    } else {
        before.invitations.rows()
    }
}

impl Directory {
    /// Creates an invitation under the identifier `id` at the time `now`.
    pub fn create_invitation_with(
        &mut self,
        id: u128,
        now: i64,
        workspace_id: u128,
        invited_by_user_id: u128,
        email: &str,
        role: MemberRole,
        expires_at: i64,
        token: &str,
    ) -> (r: Result<WorkspaceInvitation, IdentityError>)
        requires
            old(self).wf(),
        ensures
            final(self).wf(),
            created(
                *old(self),
                *final(self),
                r,
                id,
                now,
                workspace_id,
                invited_by_user_id,
                email@,
                role,
                expires_at,
                token@,
            ),
    {
        match assert_admin(&self.members, workspace_id, invited_by_user_id) {
            Ok(()) => {},
            Err(e) => {
                return Err(e);
            },
        }
        if self.invitations.would_collide(id, workspace_id, email, token) {
            return Err(IdentityError::InvitationError(InvitationFault::PendingExists));
        }
        let invitation = WorkspaceInvitation {
            id,
            workspace_id,
            invited_by_user_id: Some(invited_by_user_id),
            email: email.to_owned(),
            role,
            status: InvitationStatus::Pending,
            token: token.to_owned(),
            expires_at,
            created_at: now,
            updated_at: now,
        };
        let copy = invitation.duplicate();
        self.invitations.append(invitation);
        Ok(copy)
    }

    /// The invitations to the workspace, newest first, for a top-tier member.
    pub fn list_invitations(&self, workspace_id: u128, requesting_user_id: u128) -> (r: Result<
        Vec<&WorkspaceInvitation>,
        IdentityError,
    >)
        requires
            self.wf(),
        ensures
            r is Ok <==> role_of(self.members.rows(), workspace_id, requesting_user_id) == Some(
                MemberRole::Admin,
            ),
            r matches Ok(invitations) ==> lists(invitations@, invitations_of_workspace(self.invitations.rows(), workspace_id)),
            r matches Err(e) ==> e == IdentityError::PermissionDenied,
    {
        match assert_admin(&self.members, workspace_id, requesting_user_id) {
            Ok(()) => Ok(self.invitations.list(workspace_id)),
            Err(e) => Err(e),
        }
    }

    /// The invitation that carries `token`, in whatever state it is.
    pub fn get_invitation_by_token(&self, token: &str) -> (r: Result<
        WorkspaceInvitation,
        IdentityError,
    >)
        requires
            self.wf(),
        ensures
            r is Ok <==> has_token(self.invitations.rows(), token@),
            r matches Ok(invitation) ==> invitation == self.invitations.rows()[token_index(
                self.invitations.rows(),
                token@,
            )],
            r is Err ==> r->Err_0 == IdentityError::NotFound,
    {
        match self.invitations.find_token(token) {
            Some(i) => Ok(self.invitations.entries()[i].duplicate()),
            None => Err(IdentityError::NotFound),
        }
    }

    /// Deletes an invitation of the workspace on behalf of a top-tier member.
    pub fn revoke_invitation(
        &mut self,
        workspace_id: u128,
        invitation_id: u128,
        requesting_user_id: u128,
    ) -> (r: Result<(), IdentityError>)
        requires
            old(self).wf(),
        ensures
            final(self).wf(),
            revoked(*old(self), *final(self), r, workspace_id, invitation_id, requesting_user_id),
    {
        match assert_admin(&self.members, workspace_id, requesting_user_id) {
            Ok(()) => {},
            Err(e) => {
                return Err(e);
            },
        }
        match self.invitations.find_in_workspace(workspace_id, invitation_id) {
            Some(i) => {
                self.invitations.delete(i);
                Ok(())
            },
            None => Err(IdentityError::NotFound),
        }
    }

    /// Accepts the pending invitation that carries `token` for `user_id`, as
    /// of `now`. An invitation whose time has run out is marked `Expired`,
    /// and the call fails; a principal that already belongs to the workspace
    /// is turned away with nothing changed; otherwise the principal joins
    /// with the invitation's role and the invitation becomes `Accepted`.
    pub fn accept_invitation_at(&mut self, token: &str, user_id: u128, now: i64) -> (r: Result<
        (u128, MemberRole),
        IdentityError,
    >)
        requires
            old(self).wf(),
        ensures
            final(self).wf(),
            accepted(*old(self), *final(self), r, token@, user_id, now),
    {
        let i = match self.invitations.find_pending(token) {
            Some(i) => i,
            None => {
                return Err(IdentityError::InvitationError(InvitationFault::Invalid));
            },
        };
        let workspace_id = self.invitations.entries()[i].workspace_id;
        let role = self.invitations.entries()[i].role;
        let inviter = self.invitations.entries()[i].invited_by_user_id;
        if self.invitations.entries()[i].expires_at < now {
            self.invitations.settle(i, InvitationStatus::Expired);
            return Err(IdentityError::InvitationError(InvitationFault::Expired));
        }
        if self.members.role(workspace_id, user_id).is_some() {
            return Err(IdentityError::InvitationError(InvitationFault::AlreadyMember));
        }
        self.members.upsert(workspace_id, user_id, role, inviter, now);
        self.invitations.settle(i, InvitationStatus::Accepted);
        Ok((workspace_id, role))
    }

    /// Accepts an invitation as of the system clock's reading. The outcome is
    /// that of `accept_invitation_at` at some time not before the epoch.
    pub fn accept_invitation(&mut self, token: &str, user_id: u128) -> (r: Result<
        (u128, MemberRole),
        IdentityError,
    >)
        requires
            old(self).wf(),
        ensures
            final(self).wf(),
            exists|now: i64| now >= 0 && #[trigger] accepted(*old(self), *final(self), r, token@, user_id, now),
    {
        let now = now_micros();
        self.accept_invitation_at(token, user_id, now)
    }

    /// Creates an invitation under a fresh identifier, as of the system
    /// clock's reading. The outcome is that of `create_invitation_with` for
    /// some identifier and some time not before the epoch.
    pub fn create_invitation(
        &mut self,
        workspace_id: u128,
        invited_by_user_id: u128,
        email: &str,
        role: MemberRole,
        expires_at: i64,
        token: &str,
    ) -> (r: Result<WorkspaceInvitation, IdentityError>)
        requires
            old(self).wf(),
        ensures
            final(self).wf(),
            exists|id: u128, now: i64|
                now >= 0 && #[trigger] created(
                    *old(self),
                    *final(self),
                    r,
                    id,
                    now,
                    workspace_id,
                    invited_by_user_id,
                    email@,
                    role,
                    expires_at,
                    token@,
                ),
    {
        let id = fresh_id();
        let now = now_micros();
        self.create_invitation_with(
            id,
            now,
            workspace_id,
            invited_by_user_id,
            email,
            role,
            expires_at,
            token,
        )
    }
}

/// Once an invitation was settled, no pending invitation carries its token.
proof fn lemma_settled_token_is_spent(
    rows: Seq<WorkspaceInvitation>,
    token: Seq<char>,
    status: InvitationStatus,
)
    requires
        invitations_wf(rows),
        has_pending(rows, token),
        status.is_terminal(),
    ensures
        !has_pending(
            rows.update(
                pending_index(rows, token),
                rows[pending_index(rows, token)].in_state(status),
            ),
            token,
        ),
{
    let i = pending_index(rows, token);
    let after = rows.update(i, rows[i].in_state(status));
    assert forall|j: int| 0 <= j < after.len() implies !is_pending_with(
        #[trigger] after[j],
        token,
    ) by {
        if j != i {
            assert(rows[j].token@ != rows[i].token@);
        }
    }
}

/// Accepting the same token twice succeeds at most once: after a successful
/// acceptance, every further acceptance of the token, by whomever and
/// whenever, fails as invalid and changes neither members nor invitations.
pub proof fn second_accept_is_refused(
    before: Directory,
    between: Directory,
    after: Directory,
    token: Seq<char>,
    first_user: u128,
    first_now: i64,
    first: Result<(u128, MemberRole), IdentityError>,
    second_user: u128,
    second_now: i64,
    second: Result<(u128, MemberRole), IdentityError>,
)
    requires
        before.wf(),
        accepted(before, between, first, token, first_user, first_now),
        first is Ok,
        accepted(between, after, second, token, second_user, second_now),
    ensures
        second == Err::<(u128, MemberRole), IdentityError>(
            IdentityError::InvitationError(InvitationFault::Invalid),
        ),
        after.members.rows() == between.members.rows(),
        after.invitations.rows() == between.invitations.rows(),
{
    lemma_settled_token_is_spent(before.invitations.rows(), token, InvitationStatus::Accepted);
}

/// Accepting an invitation whose time has run out fails as expired, marks
/// the invitation `Expired` and changes nothing else: the invitation is
/// still there to be listed, in its new state, and can never be accepted.
pub proof fn overdue_accept_marks_expired(
    before: Directory,
    after: Directory,
    token: Seq<char>,
    user_id: u128,
    now: i64,
    r: Result<(u128, MemberRole), IdentityError>,
)
    requires
        before.wf(),
        has_pending(before.invitations.rows(), token),
        is_past(before.invitations.rows()[pending_index(before.invitations.rows(), token)].expires_at, now),
        accepted(before, after, r, token, user_id, now),
    ensures
        r == Err::<(u128, MemberRole), IdentityError>(
            IdentityError::InvitationError(InvitationFault::Expired),
        ),
        after.members.rows() == before.members.rows(),
        after.invitations.rows() == before.invitations.rows().update(
            pending_index(before.invitations.rows(), token),
            before.invitations.rows()[pending_index(before.invitations.rows(), token)].in_state(
                InvitationStatus::Expired,
            ),
        ),
        has_token(after.invitations.rows(), token),
        after.invitations.rows()[token_index(after.invitations.rows(), token)].status
            == InvitationStatus::Expired,
        !has_pending(after.invitations.rows(), token),
{
    let rows = before.invitations.rows();
    let i = pending_index(rows, token);
    let settled = after.invitations.rows();
    lemma_settled_token_is_spent(rows, token, InvitationStatus::Expired);
    lemma_settle_keeps_wf(rows, i, InvitationStatus::Expired);
    assert(settled[i].token@ == token);
    let k = token_index(settled, token);
    if k != i {
        assert(settled[k].token@ != settled[i].token@);
    }
}

/// An acceptance moves no invitation but along the state machine: every
/// invitation keeps its state, or leaves `Pending` for a terminal state.
pub proof fn accept_follows_state_machine(
    before: Directory,
    after: Directory,
    token: Seq<char>,
    user_id: u128,
    now: i64,
    r: Result<(u128, MemberRole), IdentityError>,
)
    requires
        accepted(before, after, r, token, user_id, now),
    ensures
        after.invitations.rows().len() == before.invitations.rows().len(),
        forall|j: int|
            0 <= j < before.invitations.rows().len() ==> (#[trigger] after.invitations.rows()[j]).status
                == before.invitations.rows()[j].status || before.invitations.rows()[j].status.may_become(
                after.invitations.rows()[j].status,
            ),
{
}

/// The invitation operations, on a directory of its own.
pub struct WorkspaceInvitationRepository {
    pub pool: Directory,
}

impl WorkspaceInvitationRepository {
    /// The operations on `pool`.
    pub fn new(pool: Directory) -> (repository: Self)
        ensures
            repository.pool == pool,
    {
        WorkspaceInvitationRepository { pool }
    }

    /// Creates an invitation under a fresh identifier, as of the system
    /// clock's reading.
    pub fn create_invitation(
        &mut self,
        workspace_id: u128,
        invited_by_user_id: u128,
        email: &str,
        role: MemberRole,
        expires_at: i64,
        token: &str,
    ) -> (r: Result<WorkspaceInvitation, IdentityError>)
        requires
            old(self).pool.wf(),
        ensures
            final(self).pool.wf(),
            exists|id: u128, now: i64|
                now >= 0 && #[trigger] created(
                    old(self).pool,
                    final(self).pool,
                    r,
                    id,
                    now,
                    workspace_id,
                    invited_by_user_id,
                    email@,
                    role,
                    expires_at,
                    token@,
                ),
    {
        let r = self.pool.create_invitation(
            workspace_id,
            invited_by_user_id,
            email,
            role,
            expires_at,
            token,
        );
        proof {
            let (id, now) = choose|id: u128, now: i64|
                now >= 0 && #[trigger] created(
                    old(self).pool,
                    self.pool,
                    r,
                    id,
                    now,
                    workspace_id,
                    invited_by_user_id,
                    email@,
                    role,
                    expires_at,
                    token@,
                );
            assert(created(
                old(self).pool,
                self.pool,
                r,
                id,
                now,
                workspace_id,
                invited_by_user_id,
                email@,
                role,
                expires_at,
                token@,
            ));
        }
        r
    }

    /// The invitations to the workspace, newest first, for a top-tier member.
    pub fn list_invitations(&self, workspace_id: u128, requesting_user_id: u128) -> (r: Result<
        Vec<&WorkspaceInvitation>,
        IdentityError,
    >)
        requires
            self.pool.wf(),
        ensures
            r is Ok <==> role_of(self.pool.members.rows(), workspace_id, requesting_user_id) == Some(
                MemberRole::Admin,
            ),
            r matches Ok(invitations) ==> lists(invitations@, invitations_of_workspace(self.pool.invitations.rows(), workspace_id)),
            r matches Err(e) ==> e == IdentityError::PermissionDenied,
    {
        self.pool.list_invitations(workspace_id, requesting_user_id)
    }

    /// The invitation that carries `token`, in whatever state it is.
    pub fn get_invitation_by_token(&self, token: &str) -> (r: Result<
        WorkspaceInvitation,
        IdentityError,
    >)
        requires
            self.pool.wf(),
        ensures
            r is Ok <==> has_token(self.pool.invitations.rows(), token@),
            r matches Ok(invitation) ==> invitation == self.pool.invitations.rows()[token_index(
                self.pool.invitations.rows(),
                token@,
            )],
            r is Err ==> r->Err_0 == IdentityError::NotFound,
    {
        self.pool.get_invitation_by_token(token)
    }

    /// Deletes an invitation of the workspace on behalf of a top-tier member.
    pub fn revoke_invitation(
        &mut self,
        workspace_id: u128,
        invitation_id: u128,
        requesting_user_id: u128,
    ) -> (r: Result<(), IdentityError>)
        requires
            old(self).pool.wf(),
        ensures
            final(self).pool.wf(),
            revoked(
                old(self).pool,
                final(self).pool,
                r,
                workspace_id,
                invitation_id,
                requesting_user_id,
            ),
    {
        self.pool.revoke_invitation(workspace_id, invitation_id, requesting_user_id)
    }

    /// Accepts an invitation as of the system clock's reading.
    pub fn accept_invitation(&mut self, token: &str, user_id: u128) -> (r: Result<
        (u128, MemberRole),
        IdentityError,
    >)
        requires
            old(self).pool.wf(),
        ensures
            final(self).pool.wf(),
            exists|now: i64|
                now >= 0 && #[trigger] accepted(old(self).pool, final(self).pool, r, token@, user_id, now),
    {
        let r = self.pool.accept_invitation(token, user_id);
        proof {
            let now = choose|now: i64|
                now >= 0 && #[trigger] accepted(old(self).pool, self.pool, r, token@, user_id, now);
            assert(accepted(old(self).pool, self.pool, r, token@, user_id, now));
        }
        r
    }
}

/// An invitation as a sweep at `now` leaves it: `Expired` where it was
/// pending past its time, and as it was otherwise.
pub open spec fn swept_one(invitation: WorkspaceInvitation, now: i64) -> WorkspaceInvitation {
    if invitation.status == InvitationStatus::Pending && is_past(invitation.expires_at, now) {
        invitation.in_state(InvitationStatus::Expired)
    } else {
        invitation
    }
}

/// The invitations as a sweep at `now` leaves them.
pub open spec fn swept(rows: Seq<WorkspaceInvitation>, now: i64) -> Seq<WorkspaceInvitation> {
    Seq::new(rows.len(), |i: int| swept_one(rows[i], now))
}

/// The number of pending invitations past their time at `now`.
pub open spec fn overdue_count(rows: Seq<WorkspaceInvitation>, now: i64) -> nat
    decreases rows.len(),
{
    if rows.len() == 0 {
        0
    } else {
        overdue_count(rows.drop_last(), now) + if swept_one(rows.last(), now) != rows.last() {
            1nat
        } else {
            0nat
        }
    }
}

impl Directory {
    /// Marks the pending invitations whose time has run out at `now` as
    /// `Expired`. Returns how many there were.
    pub fn expire_overdue(&mut self, now: i64) -> (expired: usize)
        requires
            old(self).wf(),
        ensures
            final(self).wf(),
            final(self).users == old(self).users,
            final(self).members == old(self).members,
            final(self).invitations.rows() == swept(old(self).invitations.rows(), now),
            expired == overdue_count(old(self).invitations.rows(), now),
    {
        let ghost before = self.invitations.rows();
        let n = self.invitations.entries().len();
        let mut expired: usize = 0;
        let mut i: usize = 0;
        while i < n
            invariant
                i <= n,
                n == before.len(),
                self.users == old(self).users,
                self.members == old(self).members,
                self.invitations.wf(),
                self.invitations.rows().len() == n,
                forall|j: int| 0 <= j < i ==> #[trigger] self.invitations.rows()[j] == swept_one(before[j], now),
                forall|j: int| i <= j < n ==> #[trigger] self.invitations.rows()[j] == before[j],
                expired <= i,
                expired == overdue_count(before.take(i as int), now),
            decreases n - i,
        {
            proof {
                assert(before.take(i + 1).drop_last() == before.take(i as int));
                assert(before.take(i + 1).last() == before[i as int]);
            }
            let overdue = {
                let invitation = &self.invitations.entries()[i];
                invitation.status.is_pending() && invitation.expires_at < now
            };
            if overdue {
                self.invitations.settle(i, InvitationStatus::Expired);
                expired = expired + 1;
            }
            i = i + 1;
        }
        proof {
            assert(before.take(n as int) == before);
            assert(self.invitations.rows() =~= swept(before, now));
        }
        expired
    }
}

/// A sweep changes nothing that an earlier sweep at the same time has left.
pub proof fn sweep_is_idempotent(rows: Seq<WorkspaceInvitation>, now: i64)
    ensures
        swept(swept(rows, now), now) == swept(rows, now),
{
    assert(swept(swept(rows, now), now) =~= swept(rows, now));
}

/// A sweep moves no invitation but along the state machine.
pub proof fn sweep_follows_state_machine(rows: Seq<WorkspaceInvitation>, now: i64)
    ensures
        swept(rows, now).len() == rows.len(),
        forall|j: int|
            0 <= j < rows.len() ==> (#[trigger] swept(rows, now)[j]).status == rows[j].status
                || rows[j].status.may_become(swept(rows, now)[j].status),
{
}

/// A sweep makes no difference to an acceptance that follows it: whether or
/// not the invitations were swept at a time not after `now`, accepting at
/// `now` succeeds on the same tokens for the same principals.
pub proof fn sweep_spares_acceptance(
    members: Seq<WorkspaceMember>,
    rows: Seq<WorkspaceInvitation>,
    token: Seq<char>,
    user_id: u128,
    sweep_time: i64,
    now: i64,
)
    requires
        invitations_wf(rows),
        sweep_time <= now,
    ensures
        accept_outcome(members, swept(rows, sweep_time), token, user_id, now) is Ok
            <==> accept_outcome(members, rows, token, user_id, now) is Ok,
        accept_outcome(members, rows, token, user_id, now) is Ok ==> accept_outcome(
            members,
            swept(rows, sweep_time),
            token,
            user_id,
            now,
        ) == accept_outcome(members, rows, token, user_id, now),
{
    let after = swept(rows, sweep_time);
    assert forall|a: int, b: int|
        0 <= a < after.len() && 0 <= b < after.len() && a != b implies (#[trigger] after[a]).token@
        != (#[trigger] after[b]).token@ by {
        assert(rows[a].token@ != rows[b].token@);
    }
    if has_pending(after, token) {
        let i = pending_index(after, token);
        assert(is_pending_with(after[i], token));
        assert(is_pending_with(rows[i], token));
        lemma_pending_index_is(rows, token, i);
    }
    if accept_outcome(members, rows, token, user_id, now) is Ok {
        let i = pending_index(rows, token);
        assert(is_pending_with(rows[i], token));
        assert(is_pending_with(after[i], token));
        let k = pending_index(after, token);
        assert(is_pending_with(after[k], token));
        if k != i {
            assert(after[k].token@ != after[i].token@);
        }
    }
}

} // verus!
