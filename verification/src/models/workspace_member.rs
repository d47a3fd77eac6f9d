//! The members of teams.

use vstd::prelude::*;

use crate::models::database::{
    has_role,
    has_team,
    lemma_members_wf_remove,
    members_wf,
    Database,
    StoreError,
};
use crate::models::role::{lists_keys_of_role, role_owns_key, Role};
use crate::models::workspace_team::{belongs_to, WorkspaceTeam};
use crate::order::{lists, pick, rank, Ranked};
use crate::text::{copy_text, text_eq};

verus! {

/// A membership: the role of a principal in a team.
#[derive(Debug, Clone)]
pub struct WorkspaceMember {
    pub id: u128,
    pub workspace_team_id: u128,
    pub user_id: String,
    pub role_id: u128,
    pub invited_by: Option<String>,
    pub joined_at: i64,
    pub created_at: i64,
    pub updated_at: i64,
}

/// A membership with the name of its role.
#[derive(Debug, Clone)]
pub struct WorkspaceMemberWithRole {
    pub member: WorkspaceMember,
    pub role_name: String,
}

/// What a new membership is made of.
#[derive(Debug, Clone)]
pub struct CreateWorkspaceMember {
    pub user_id: String,
    pub role_id: u128,
    pub invited_by: Option<String>,
}

/// The role to give a member, if any.
#[derive(Debug, Clone, Copy)]
pub struct UpdateWorkspaceMember {
    pub role_id: Option<u128>,
}

/// Members are listed in the order in which they joined.
impl Ranked for WorkspaceMember {
    open spec fn precedes(&self, other: &Self) -> bool {
        self.joined_at <= other.joined_at
    }

    fn comes_first(&self, other: &Self) -> (b: bool) {
        self.joined_at <= other.joined_at
    }

    proof fn lemma_rank_total(a: &Self, b: &Self) {
    }

    proof fn lemma_rank_transitive(a: &Self, b: &Self, c: &Self) {
    }
}

/// The members of the team, in row order.
pub open spec fn members_of_team<'a>(rows: Seq<WorkspaceMember>, team_id: u128) -> Seq<
    &'a WorkspaceMember,
> {
    pick(rows, |m: WorkspaceMember| m.workspace_team_id == team_id)
}

/// Whether `row` is the membership of `user_id` in `team_id`.
pub open spec fn is_member_row(row: WorkspaceMember, team_id: u128, user_id: Seq<char>) -> bool {
    row.workspace_team_id == team_id && row.user_id@ == user_id
}

/// The index of the principal's row in the team.
pub open spec fn member_index(rows: Seq<WorkspaceMember>, team_id: u128, user_id: Seq<char>) -> int {
    choose|i: int| 0 <= i < rows.len() && is_member_row(#[trigger] rows[i], team_id, user_id)
}

/// Whether a member has the identifier.
pub open spec fn has_member_id(rows: Seq<WorkspaceMember>, id: u128) -> bool {
    exists|i: int| 0 <= i < rows.len() && (#[trigger] rows[i]).id == id
}

/// The index of the member with the identifier.
pub open spec fn member_id_index(rows: Seq<WorkspaceMember>, id: u128) -> int {
    choose|i: int| 0 <= i < rows.len() && (#[trigger] rows[i]).id == id
}

/// The role that the principal holds in the team, if it is a member.
pub open spec fn role_id_of(rows: Seq<WorkspaceMember>, team_id: u128, user_id: Seq<char>) -> Option<
    u128,
> {
    if belongs_to(rows, team_id, user_id) {
        Some(rows[member_index(rows, team_id, user_id)].role_id)
    } else {
        None
    }
}

/// The number of members of the team that hold the role.
pub open spec fn holders(rows: Seq<WorkspaceMember>, team_id: u128, role_id: u128) -> nat
    decreases rows.len(),
{
    if rows.len() == 0 {
        0
    } else {
        holders(rows.drop_last(), team_id, role_id) + if rows.last().workspace_team_id == team_id
            && rows.last().role_id == role_id {
            1nat
        } else {
            0nat
        }
    }
}

/// Under the constraints of the table, an index that holds the principal's
/// row in the team is the row's index.
pub proof fn lemma_member_index_is(
    rows: Seq<WorkspaceMember>,
    team_id: u128,
    user_id: Seq<char>,
    i: int,
)
    requires
        members_wf(rows),
        0 <= i < rows.len(),
        is_member_row(rows[i], team_id, user_id),
    ensures
        belongs_to(rows, team_id, user_id),
        member_index(rows, team_id, user_id) == i,
{
    let j = member_index(rows, team_id, user_id);
    assert(is_member_row(rows[j], team_id, user_id));
    if i != j {
        assert(rows[i].id != rows[j].id);
    }
}

/// Under the constraints of the table, an index that holds the member with
/// an identifier is that member's index.
pub proof fn lemma_member_id_index_is(rows: Seq<WorkspaceMember>, id: u128, i: int)
    requires
        members_wf(rows),
        0 <= i < rows.len(),
        rows[i].id == id,
    ensures
        member_id_index(rows, id) == i,
{
    let j = member_id_index(rows, id);
    if i != j {
        assert(rows[i].id != rows[j].id);
    }
}

/// Removing a row lowers the number of holders by one where the row holds
/// the role in the team, and keeps it otherwise.
pub proof fn lemma_holders_remove(rows: Seq<WorkspaceMember>, i: int, team_id: u128, role_id: u128)
    requires
        0 <= i < rows.len(),
    ensures
        holders(rows.remove(i), team_id, role_id) + (if rows[i].workspace_team_id == team_id
            && rows[i].role_id == role_id {
            1nat
        } else {
            0nat
        }) == holders(rows, team_id, role_id),
    decreases rows.len(),
{
    if i == rows.len() - 1 {
        assert(rows.remove(i) == rows.drop_last());
    } else {
        lemma_holders_remove(rows.drop_last(), i, team_id, role_id);
        assert(rows.remove(i).drop_last() == rows.drop_last().remove(i));
        assert(rows.remove(i).last() == rows.last());
    }
}

/// Replacing a row changes the number of holders by what the old and the
/// new row contribute.
pub proof fn lemma_holders_update(
    rows: Seq<WorkspaceMember>,
    i: int,
    row: WorkspaceMember,
    team_id: u128,
    role_id: u128,
)
    requires
        0 <= i < rows.len(),
    ensures
        holders(rows.update(i, row), team_id, role_id) + (if rows[i].workspace_team_id == team_id
            && rows[i].role_id == role_id {
            1nat
        } else {
            0nat
        }) == holders(rows, team_id, role_id) + (if row.workspace_team_id == team_id && row.role_id
            == role_id {
            1nat
        } else {
            0nat
        }),
    decreases rows.len(),
{
    if i == rows.len() - 1 {
        assert(rows.update(i, row).drop_last() == rows.drop_last());
    } else {
        lemma_holders_update(rows.drop_last(), i, row, team_id, role_id);
        assert(rows.update(i, row).drop_last() == rows.drop_last().update(i, row));
        assert(rows.update(i, row).last() == rows.last());
    }
}

impl WorkspaceMember {
    /// A copy that is equal to the member.
    pub fn duplicate(&self) -> (copy: WorkspaceMember)
        ensures
            copy == *self,
    {
        WorkspaceMember {
            id: self.id,
            workspace_team_id: self.workspace_team_id,
            user_id: self.user_id.clone(),
            role_id: self.role_id,
            invited_by: copy_text(&self.invited_by),
            joined_at: self.joined_at,
            created_at: self.created_at,
            updated_at: self.updated_at,
        }
    }

    /// The members of the team, in the order in which they joined.
    pub fn find_all_for_team(pool: &Database, workspace_team_id: u128) -> (found: Vec<
        &WorkspaceMember,
    >)
        ensures
            lists(found@, members_of_team(pool.member_rows(), workspace_team_id)),
    {
        let mut selected: Vec<&WorkspaceMember> = Vec::new();
        let mut i: usize = 0;
        while i < pool.members.len()
            invariant
                i <= pool.members@.len(),
                selected@ == members_of_team(pool.members@.take(i as int), workspace_team_id),
            decreases pool.members@.len() - i,
        {
            assert(pool.members@.take(i + 1).drop_last() == pool.members@.take(i as int));
            if pool.members[i].workspace_team_id == workspace_team_id {
                selected.push(&pool.members[i]);
            }
            i = i + 1;
        }
        assert(pool.members@.take(i as int) == pool.members@);
        rank(selected)
    }

    pub(crate) fn position(pool: &Database, id: u128) -> (found: Option<usize>)
        ensures
            found is Some == has_member_id(pool.member_rows(), id),
            found matches Some(i) ==> i < pool.member_rows().len() && pool.member_rows()[i as int].id
                == id,
    {
        let mut i: usize = 0;
        while i < pool.members.len()
            invariant
                i <= pool.members@.len(),
                forall|j: int| 0 <= j < i ==> (#[trigger] pool.members@[j]).id != id,
            decreases pool.members@.len() - i,
        {
            if pool.members[i].id == id {
                return Some(i);
            }
            i = i + 1;
        }
        None
    }

    pub(crate) fn position_in_team(pool: &Database, workspace_team_id: u128, user_id: &str) -> (found:
        Option<usize>)
        ensures
            found is Some == belongs_to(pool.member_rows(), workspace_team_id, user_id@),
            found matches Some(i) ==> i < pool.member_rows().len() && is_member_row(
                pool.member_rows()[i as int],
                workspace_team_id,
                user_id@,
            ),
    {
        let mut i: usize = 0;
        while i < pool.members.len()
            invariant
                i <= pool.members@.len(),
                forall|j: int|
                    0 <= j < i ==> !is_member_row(
                        #[trigger] pool.members@[j],
                        workspace_team_id,
                        user_id@,
                    ),
            decreases pool.members@.len() - i,
        {
            if pool.members[i].workspace_team_id == workspace_team_id && text_eq(
                pool.members[i].user_id.as_str(),
                user_id,
            ) {
                return Some(i);
            }
            i = i + 1;
        }
        None
    }

    /// The member with the identifier.
    pub fn find_by_id(pool: &Database, id: u128) -> (found: Option<&WorkspaceMember>)
        ensures
            found is Some == has_member_id(pool.member_rows(), id),
            found matches Some(member) ==> member.id == id && pool.member_rows().contains(*member),
    {
        match WorkspaceMember::position(pool, id) {
            Some(i) => Some(&pool.members[i]),
            None => None,
        }
    }

    /// The principal's membership in the team.
    pub fn find_by_team_and_user<'a>(pool: &'a Database, workspace_team_id: u128, user_id: &str) -> (found:
        Option<&'a WorkspaceMember>)
        ensures
            found is Some == belongs_to(pool.member_rows(), workspace_team_id, user_id@),
            found matches Some(member) ==> is_member_row(*member, workspace_team_id, user_id@)
                && pool.member_rows().contains(*member),
    {
        match WorkspaceMember::position_in_team(pool, workspace_team_id, user_id) {
            Some(i) => Some(&pool.members[i]),
            None => None,
        }
    }

    /// Count members with a specific role in a workspace team
    pub fn count_by_role(pool: &Database, workspace_team_id: u128, role_id: u128) -> (count: u64)
        ensures
            count == holders(pool.member_rows(), workspace_team_id, role_id),
    {
        let mut count: u64 = 0;
        let mut i: usize = 0;
        while i < pool.members.len()
            invariant
                i <= pool.members@.len(),
                count <= i,
                count == holders(pool.members@.take(i as int), workspace_team_id, role_id),
            decreases pool.members@.len() - i,
        {
            assert(pool.members@.take(i + 1).drop_last() == pool.members@.take(i as int));
            if pool.members[i].workspace_team_id == workspace_team_id && pool.members[i].role_id
                == role_id {
                count = count + 1;
            }
            i = i + 1;
        }
        assert(pool.members@.take(i as int) == pool.members@);
        count
    }
}

/// Why a membership cannot be written, if it cannot: an identifier or a
/// (team, principal) pair that is taken, or a team or role that does not
/// exist.
pub open spec fn create_refusal(
    pool: Database,
    workspace_team_id: u128,
    user_id: Seq<char>,
    role_id: u128,
    id: u128,
) -> Option<StoreError> {
    if has_member_id(pool.member_rows(), id) || belongs_to(
        pool.member_rows(),
        workspace_team_id,
        user_id,
    ) {
        Some(StoreError::UniqueViolation)
    } else if !has_team(pool.team_rows(), workspace_team_id) || !has_role(
        pool.role_rows(),
        role_id,
    ) {
        Some(StoreError::ForeignKeyViolation)
    } else {
        None
    }
}

/// Whether only the members of the store changed.
pub open spec fn only_members_changed(before: Database, after: Database) -> bool {
    &&& after.permission_rows() == before.permission_rows()
    &&& after.role_rows() == before.role_rows()
    &&& after.grant_rows() == before.grant_rows()
    &&& after.team_rows() == before.team_rows()
}

impl WorkspaceMember {
    /// Writes a membership.
    pub fn create(
        pool: &mut Database,
        workspace_team_id: u128,
        data: &CreateWorkspaceMember,
        id: u128,
        now: i64,
    ) -> (r: Result<WorkspaceMember, StoreError>)
        requires
            old(pool).wf(),
        ensures
            final(pool).wf(),
            only_members_changed(*old(pool), *final(pool)),
            match create_refusal(*old(pool), workspace_team_id, data.user_id@, data.role_id, id) {
                Some(refusal) => r == Err::<WorkspaceMember, StoreError>(refusal) && final(pool).member_rows()
                    == old(pool).member_rows(),
                None => r is Ok && {
                    let member = r->Ok_0;
                    &&& final(pool).member_rows() == old(pool).member_rows().push(member)
                    &&& member.id == id
                    &&& member.workspace_team_id == workspace_team_id
                    &&& member.user_id@ == data.user_id@
                    &&& member.role_id == data.role_id
                    &&& member.invited_by == data.invited_by
                    &&& member.joined_at == now
                    &&& member.created_at == now
                    &&& member.updated_at == now
                },
            },
    {
        let member = WorkspaceMember {
            id,
            workspace_team_id,
            user_id: data.user_id.clone(),
            role_id: data.role_id,
            invited_by: copy_text(&data.invited_by),
            joined_at: now,
            created_at: now,
            updated_at: now,
        };
        let copy = member.duplicate();
        match WorkspaceMember::restore(pool, member) {
            Ok(()) => Ok(copy),
            Err(e) => Err(e),
        }
    }

    /// Enters a membership as it is on record elsewhere, under the
    /// constraints of the store.
    pub fn restore(pool: &mut Database, member: WorkspaceMember) -> (r: Result<(), StoreError>)
        requires
            old(pool).wf(),
        ensures
            final(pool).wf(),
            only_members_changed(*old(pool), *final(pool)),
            r == match create_refusal(
                *old(pool),
                member.workspace_team_id,
                member.user_id@,
                member.role_id,
                member.id,
            ) {
                Some(refusal) => Err::<(), StoreError>(refusal),
                None => Ok(()),
            },
            final(pool).member_rows() == if r is Ok {
                old(pool).member_rows().push(member)
            } else {
                old(pool).member_rows()
            },
    {
        if WorkspaceMember::position(pool, member.id).is_some()
            || WorkspaceMember::position_in_team(
            pool,
            member.workspace_team_id,
            member.user_id.as_str(),
        ).is_some() {
            return Err(StoreError::UniqueViolation);
        }
        if WorkspaceTeam::position(pool, member.workspace_team_id).is_none() || Role::position(
            pool,
            member.role_id,
        ).is_none() {
            return Err(StoreError::ForeignKeyViolation);
        }
        let ghost before = pool.members@;
        pool.members.push(member);
        proof {
            let after = pool.members@;
            assert forall|a: int, b: int|
                0 <= a < after.len() && 0 <= b < after.len() && a != b implies (
            #[trigger] after[a]).id != (#[trigger] after[b]).id && !((after[a]).workspace_team_id
                == after[b].workspace_team_id && after[a].user_id@ == after[b].user_id@) by {
                if a < before.len() && b < before.len() {
                    assert(before[a].id != before[b].id);
                } else if a < before.len() {
                    assert(before[a].id != member.id && !is_member_row(
                        before[a],
                        member.workspace_team_id,
                        member.user_id@,
                    ));
                } else {
                    assert(before[b].id != member.id && !is_member_row(
                        before[b],
                        member.workspace_team_id,
                        member.user_id@,
                    ));
                }
            }
            assert forall|k: int| 0 <= k < after.len() implies has_role(
                pool.roles@,
                (#[trigger] after[k]).role_id,
            ) && has_team(pool.teams@, after[k].workspace_team_id) by {
                if k < before.len() {
                    assert(after[k] == before[k]);
                }
            }
        }
        Ok(())
    }

    /// Gives the member with the identifier another role. A member that does
    /// not exist is reported as a row not found, a role that does not exist
    /// as a broken reference.
    pub fn update_role(pool: &mut Database, id: u128, role_id: u128, now: i64) -> (r: Result<
        WorkspaceMember,
        StoreError,
    >)
        requires
            old(pool).wf(),
        ensures
            final(pool).wf(),
            only_members_changed(*old(pool), *final(pool)),
            r == if !has_member_id(old(pool).member_rows(), id) {
                Err::<WorkspaceMember, StoreError>(StoreError::RowNotFound)
            } else if !has_role(old(pool).role_rows(), role_id) {
                Err(StoreError::ForeignKeyViolation)
            } else {
                Ok(
                    WorkspaceMember {
                        role_id,
                        updated_at: now,
                        ..old(pool).member_rows()[member_id_index(old(pool).member_rows(), id)]
                    },
                )
            },
            final(pool).member_rows() == if r is Ok {
                old(pool).member_rows().update(member_id_index(old(pool).member_rows(), id), r->Ok_0)
            } else {
                old(pool).member_rows()
            },
    {
        let i = match WorkspaceMember::position(pool, id) {
            Some(i) => i,
            None => {
                return Err(StoreError::RowNotFound);
            },
        };
        if Role::position(pool, role_id).is_none() {
            return Err(StoreError::ForeignKeyViolation);
        }
        proof {
            lemma_member_id_index_is(pool.members@, id, i as int);
        }
        let ghost before = pool.members@;
        let existing = pool.members.remove(i);
        let updated = WorkspaceMember {
            id: existing.id,
            workspace_team_id: existing.workspace_team_id,
            user_id: existing.user_id,
            role_id,
            invited_by: existing.invited_by,
            joined_at: existing.joined_at,
            created_at: existing.created_at,
            updated_at: now,
        };
        let copy = updated.duplicate();
        pool.members.insert(i, updated);
        proof {
            let after = pool.members@;
            assert(after == before.update(i as int, copy));
            assert forall|a: int, b: int|
                0 <= a < after.len() && 0 <= b < after.len() && a != b implies (
            #[trigger] after[a]).id != (#[trigger] after[b]).id && !((after[a]).workspace_team_id
                == after[b].workspace_team_id && after[a].user_id@ == after[b].user_id@) by {
                assert(before[a].id != before[b].id);
            }
            assert forall|k: int| 0 <= k < after.len() implies has_role(
                pool.roles@,
                (#[trigger] after[k]).role_id,
            ) && has_team(pool.teams@, after[k].workspace_team_id) by {
                assert(has_team(pool.teams@, before[k].workspace_team_id));
            }
        }
        Ok(copy)
    }

    fn remove_at(pool: &mut Database, i: usize)
        requires
            old(pool).wf(),
            i < old(pool).member_rows().len(),
        ensures
            final(pool).wf(),
            only_members_changed(*old(pool), *final(pool)),
            final(pool).member_rows() == old(pool).member_rows().remove(i as int),
    {
        let ghost before = pool.members@;
        let _ = pool.members.remove(i);
        proof {
            lemma_members_wf_remove(before, i as int);
            let after = pool.members@;
            assert forall|k: int| 0 <= k < after.len() implies has_role(
                pool.roles@,
                (#[trigger] after[k]).role_id,
            ) && has_team(pool.teams@, after[k].workspace_team_id) by {
                let k0 = if k < i { k } else { k + 1 };
                assert(after[k] == before[k0]);
            }
        }
    }

    /// Deletes the member with the identifier. Returns the number of rows
    /// deleted: one, or none where there is no such member.
    pub fn delete(pool: &mut Database, id: u128) -> (deleted: u64)
        requires
            old(pool).wf(),
        ensures
            final(pool).wf(),
            only_members_changed(*old(pool), *final(pool)),
            deleted == if has_member_id(old(pool).member_rows(), id) {
                1u64
            } else {
                0u64
            },
            final(pool).member_rows() == if has_member_id(old(pool).member_rows(), id) {
                old(pool).member_rows().remove(member_id_index(old(pool).member_rows(), id))
            } else {
                old(pool).member_rows()
            },
    {
        match WorkspaceMember::position(pool, id) {
            Some(i) => {
                proof {
                    lemma_member_id_index_is(pool.members@, id, i as int);
                }
                WorkspaceMember::remove_at(pool, i);
                1
            },
            None => 0,
        }
    }

    /// Deletes the principal's membership in the team. Returns the number of
    /// rows deleted: one, or none where the principal is no member.
    pub fn delete_by_team_and_user(pool: &mut Database, workspace_team_id: u128, user_id: &str) -> (deleted:
        u64)
        requires
            old(pool).wf(),
        ensures
            final(pool).wf(),
            only_members_changed(*old(pool), *final(pool)),
            deleted == if belongs_to(old(pool).member_rows(), workspace_team_id, user_id@) {
                1u64
            } else {
                0u64
            },
            final(pool).member_rows() == if belongs_to(
                old(pool).member_rows(),
                workspace_team_id,
                user_id@,
            ) {
                old(pool).member_rows().remove(
                    member_index(old(pool).member_rows(), workspace_team_id, user_id@),
                )
            } else {
                old(pool).member_rows()
            },
    {
        match WorkspaceMember::position_in_team(pool, workspace_team_id, user_id) {
            Some(i) => {
                proof {
                    lemma_member_index_is(pool.members@, workspace_team_id, user_id@, i as int);
                }
                WorkspaceMember::remove_at(pool, i);
                1
            },
            None => 0,
        }
    }

    /// Check if a user has a specific permission in a workspace team: it is
    /// a member, and its role owns the key.
    pub fn has_permission(
        pool: &Database,
        workspace_team_id: u128,
        user_id: &str,
        permission_key: &str,
    ) -> (b: bool)
        requires
            pool.wf(),
        ensures
            b == match role_id_of(pool.member_rows(), workspace_team_id, user_id@) {
                Some(role_id) => role_owns_key(
                    pool.grant_rows(),
                    pool.permission_rows(),
                    role_id,
                    permission_key@,
                ),
                None => false,
            },
    {
        match WorkspaceMember::position_in_team(pool, workspace_team_id, user_id) {
            Some(i) => {
                proof {
                    lemma_member_index_is(pool.members@, workspace_team_id, user_id@, i as int);
                }
                Role::has_permission(pool, pool.members[i].role_id, permission_key)
            },
            None => false,
        }
    }

    /// Get all permissions for a user in a workspace team: the keys that its
    /// role owns, each once, in the order of the keys; none for a principal
    /// that is no member.
    pub fn get_permissions(pool: &Database, workspace_team_id: u128, user_id: &str) -> (keys: Vec<
        String,
    >)
        requires
            pool.wf(),
        ensures
            match role_id_of(pool.member_rows(), workspace_team_id, user_id@) {
                Some(role_id) => lists_keys_of_role(*pool, role_id, keys@),
                None => keys@.len() == 0,
            },
    {
        match WorkspaceMember::position_in_team(pool, workspace_team_id, user_id) {
            Some(i) => {
                proof {
                    lemma_member_index_is(pool.members@, workspace_team_id, user_id@, i as int);
                }
                Role::get_permissions(pool, pool.members[i].role_id)
            },
            None => Vec::new(),
        }
    }

    /// Get the role for a user in a workspace team
    pub fn get_role<'a>(pool: &'a Database, workspace_team_id: u128, user_id: &str) -> (role: Option<
        &'a Role,
    >)
        requires
            pool.wf(),
        ensures
            role is Some == belongs_to(pool.member_rows(), workspace_team_id, user_id@),
            role matches Some(found) ==> Some(found.id) == role_id_of(
                pool.member_rows(),
                workspace_team_id,
                user_id@,
            ) && pool.role_rows().contains(*found),
    {
        match WorkspaceMember::position_in_team(pool, workspace_team_id, user_id) {
            Some(i) => {
                proof {
                    lemma_member_index_is(pool.members@, workspace_team_id, user_id@, i as int);
                }
                Role::find_by_id(pool, pool.members[i].role_id)
            },
            None => None,
        }
    }

    /// The members of the team with the names of their roles, in the order
    /// in which they joined.
    pub fn find_all_with_role_for_team(pool: &Database, workspace_team_id: u128) -> (found: Vec<
        WorkspaceMemberWithRole,
    >)
        requires
            pool.wf(),
        ensures
            shows_members(*pool, workspace_team_id, found@),
    {
        let members = WorkspaceMember::find_all_for_team(pool, workspace_team_id);
        let mut found: Vec<WorkspaceMemberWithRole> = Vec::new();
        let mut i: usize = 0;
        while i < members.len()
            invariant
                i <= members@.len(),
                found@.len() == i,
                pool.wf(),
                members@.to_multiset() == members_of_team(pool.member_rows(), workspace_team_id).to_multiset(),
                forall|k: int| 0 <= k < i ==> #[trigger] is_named(*members@[k], found@[k], pool.role_rows()),
            decreases members@.len() - i,
        {
            let member = members[i];
            proof {
                let wanted = |m: WorkspaceMember| m.workspace_team_id == workspace_team_id;
                let picked = pick(pool.member_rows(), wanted);
                vstd::seq_lib::to_multiset_contains(members@, member);
                vstd::seq_lib::to_multiset_contains(picked, member);
                assert(members@[i as int] == member);
                assert(members@.contains(member));
                assert(picked.contains(member));
                let k = choose|k: int| 0 <= k < picked.len() && picked[k] == member;
                crate::order::lemma_pick_is_sound(pool.member_rows(), wanted, k);
                assert(pool.member_rows().contains(*member));
                let j = choose|j: int| 0 <= j < pool.member_rows().len() && pool.member_rows()[j] == *member;
                assert(has_role(pool.role_rows(), pool.member_rows()[j].role_id));
            }
            let role_name = match Role::find_by_id(pool, member.role_id) {
                Some(role) => role.name.clone(),
                None => String::new(),
            };
            found.push(WorkspaceMemberWithRole { member: member.duplicate(), role_name });
            i = i + 1;
        }
        assert(names_roles(members@, found@, pool.role_rows()));
        found
    }
}

/// Whether `shown` is `member` with the name of the role that it holds.
pub open spec fn is_named(member: WorkspaceMember, shown: WorkspaceMemberWithRole, roles: Seq<Role>) -> bool {
    &&& shown.member == member
    &&& exists|i: int|
        0 <= i < roles.len() && (#[trigger] roles[i]).id == member.role_id && roles[i].name
            == shown.role_name
}

/// Whether `shown` is what a listing of the team's members shows: the
/// members in the order in which they joined, each with the name of its
/// role.
pub open spec fn shows_members(pool: Database, team_id: u128, shown: Seq<WorkspaceMemberWithRole>) -> bool {
    exists|listing: Seq<&WorkspaceMember>|
        {
            &&& lists(listing, members_of_team(pool.member_rows(), team_id))
            &&& #[trigger] names_roles(listing, shown, pool.role_rows())
        }
}

/// Whether `shown` is the listing, each member with the name of its role.
pub open spec fn names_roles(
    listing: Seq<&WorkspaceMember>,
    shown: Seq<WorkspaceMemberWithRole>,
    roles: Seq<Role>,
) -> bool {
    &&& shown.len() == listing.len()
    &&& forall|k: int| 0 <= k < listing.len() ==> #[trigger] is_named(*listing[k], shown[k], roles)
}

} // verus!
