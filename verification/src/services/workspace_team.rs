//! Teams, their members and roles, under the rule that a team never loses
//! its last owner.

use vstd::prelude::*;
use vstd::string::StringExecFns;

use crate::clock::now_micros;
use crate::ids::fresh_id;
use crate::models::database::{has_role, has_team, members_wf, Database, StoreError};
use crate::models::permission::{all_permissions, permissions_under, Permission};
use crate::models::role::{all_roles, lists_keys_of_role, role_owns_key, Role};
use crate::models::role::system_roles::OWNER;
use crate::models::workspace_member::{
    has_member_id,
    holders,
    is_member_row,
    lemma_holders_remove,
    lemma_holders_update,
    lemma_member_id_index_is,
    lemma_member_index_is,
    member_index,
    only_members_changed,
    role_id_of,
    shows_members,
    CreateWorkspaceMember,
    WorkspaceMember,
    WorkspaceMemberWithRole,
};
use crate::models::workspace_team::{
    all_teams,
    belongs_to,
    team_index,
    teams_of_user,
    CreateWorkspaceTeam,
    UpdateWorkspaceTeam,
    WorkspaceTeam,
};
use crate::order::lists;
use crate::status::{BAD_REQUEST, CONFLICT, FORBIDDEN, INTERNAL_SERVER_ERROR, NOT_FOUND};
use crate::text::optional_text;

verus! {

/// Failures of the team operations.
#[derive(Debug, Clone)]
pub enum WorkspaceTeamServiceError {
    Database(StoreError),
    TeamNotFound,
    MemberNotFound,
    RoleNotFound,
    AlreadyMember,
    LastOwner,
    LastOwnerRoleChange,
    PermissionDenied(String),
    SystemRoleDelete,
}

impl WorkspaceTeamServiceError {
    /// The status under which the failure is surfaced: what is absent is
    /// not found, what would break a rule of membership is a conflict, a
    /// missing permission is forbidden, a change to protected seed data is
    /// a bad request, and a failure of the store an internal error.
    pub open spec fn status(self) -> u16 {
        match self {
            WorkspaceTeamServiceError::Database(_) => INTERNAL_SERVER_ERROR,
            WorkspaceTeamServiceError::TeamNotFound
            | WorkspaceTeamServiceError::MemberNotFound
            | WorkspaceTeamServiceError::RoleNotFound => NOT_FOUND,
            WorkspaceTeamServiceError::AlreadyMember
            | WorkspaceTeamServiceError::LastOwner
            | WorkspaceTeamServiceError::LastOwnerRoleChange => CONFLICT,
            WorkspaceTeamServiceError::PermissionDenied(_) => FORBIDDEN,
            WorkspaceTeamServiceError::SystemRoleDelete => BAD_REQUEST,
        }
    }

    /// The message that tells the failure. A failure of the store is told
    /// without detail.
    pub open spec fn message(self) -> Seq<char> {
        match self {
            WorkspaceTeamServiceError::Database(_) => "Internal error"@,
            WorkspaceTeamServiceError::TeamNotFound => "Workspace team not found"@,
            WorkspaceTeamServiceError::MemberNotFound => "Member not found"@,
            WorkspaceTeamServiceError::RoleNotFound => "Role not found"@,
            WorkspaceTeamServiceError::AlreadyMember => "User is already a member of this workspace team"@,
            WorkspaceTeamServiceError::LastOwner => "Cannot remove the last owner"@,
            WorkspaceTeamServiceError::LastOwnerRoleChange => "Cannot change role of the last owner"@,
            WorkspaceTeamServiceError::PermissionDenied(key) => "User does not have permission: "@
                + key@,
            WorkspaceTeamServiceError::SystemRoleDelete => "Cannot delete system role"@,
        }
    }

    /// The status under which the failure is surfaced.
    pub fn status_code(&self) -> (status: u16)
        ensures
            status == self.status(),
    {
        match self {
            WorkspaceTeamServiceError::Database(_) => INTERNAL_SERVER_ERROR,
            WorkspaceTeamServiceError::TeamNotFound
            | WorkspaceTeamServiceError::MemberNotFound
            | WorkspaceTeamServiceError::RoleNotFound => NOT_FOUND,
            WorkspaceTeamServiceError::AlreadyMember
            | WorkspaceTeamServiceError::LastOwner
            | WorkspaceTeamServiceError::LastOwnerRoleChange => CONFLICT,
            WorkspaceTeamServiceError::PermissionDenied(_) => FORBIDDEN,
            WorkspaceTeamServiceError::SystemRoleDelete => BAD_REQUEST,
        }
    }

    /// The message that tells the failure.
    pub fn describe(&self) -> (message: String)
        ensures
            message@ == self.message(),
    {
        match self {
            WorkspaceTeamServiceError::Database(_) => String::from_str("Internal error"),
            WorkspaceTeamServiceError::TeamNotFound => String::from_str("Workspace team not found"),
            WorkspaceTeamServiceError::MemberNotFound => String::from_str("Member not found"),
            WorkspaceTeamServiceError::RoleNotFound => String::from_str("Role not found"),
            WorkspaceTeamServiceError::AlreadyMember => String::from_str(
                "User is already a member of this workspace team",
            ),
            WorkspaceTeamServiceError::LastOwner => String::from_str("Cannot remove the last owner"),
            WorkspaceTeamServiceError::LastOwnerRoleChange => String::from_str(
                "Cannot change role of the last owner",
            ),
            WorkspaceTeamServiceError::PermissionDenied(key) => {
                let mut message = String::from_str("User does not have permission: ");
                message.append(key.as_str());
                message
            },
            WorkspaceTeamServiceError::SystemRoleDelete => String::from_str(
                "Cannot delete system role",
            ),
        }
    }
}

/// The operations on teams, their members and roles.
#[derive(Debug, Clone, Copy, Default)]
pub struct WorkspaceTeamService;

/// Why a principal cannot be added to a team, if it cannot. The checks come
/// in this order: the team must exist, the role must exist, the principal
/// must not be a member yet, and the member's identifier must be free.
pub open spec fn add_member_refusal(
    pool: Database,
    team_id: u128,
    user_id: Seq<char>,
    role_id: u128,
    member_id: u128,
) -> Option<WorkspaceTeamServiceError> {
    if !has_team(pool.team_rows(), team_id) {
        Some(WorkspaceTeamServiceError::TeamNotFound)
    } else if !has_role(pool.role_rows(), role_id) {
        Some(WorkspaceTeamServiceError::RoleNotFound)
    } else if belongs_to(pool.member_rows(), team_id, user_id) {
        Some(WorkspaceTeamServiceError::AlreadyMember)
    } else if has_member_id(pool.member_rows(), member_id) {
        Some(WorkspaceTeamServiceError::Database(StoreError::UniqueViolation))
    } else {
        None
    }
}

/// Why a member cannot be removed, if it cannot: it must be a member, and
/// must not be the team's last owner.
pub open spec fn remove_member_refusal(rows: Seq<WorkspaceMember>, team_id: u128, user_id: Seq<char>) -> Option<
    WorkspaceTeamServiceError,
> {
    if !belongs_to(rows, team_id, user_id) {
        Some(WorkspaceTeamServiceError::MemberNotFound)
    } else if role_id_of(rows, team_id, user_id) == Some(OWNER) && holders(rows, team_id, OWNER)
        <= 1 {
        Some(WorkspaceTeamServiceError::LastOwner)
    } else {
        None
    }
}

/// The members after a removal was asked for.
pub open spec fn members_after_removal(rows: Seq<WorkspaceMember>, team_id: u128, user_id: Seq<char>) -> Seq<
    WorkspaceMember,
> {
    if remove_member_refusal(rows, team_id, user_id) is None {
        rows.remove(member_index(rows, team_id, user_id))
    } else {
        rows
    }
}

/// Why a member's role cannot be changed, if it cannot: it must be a member,
/// the new role must exist, and the team's last owner must stay owner.
pub open spec fn role_change_refusal(
    rows: Seq<WorkspaceMember>,
    roles: Seq<Role>,
    team_id: u128,
    user_id: Seq<char>,
    new_role_id: u128,
) -> Option<WorkspaceTeamServiceError> {
    if !belongs_to(rows, team_id, user_id) {
        Some(WorkspaceTeamServiceError::MemberNotFound)
    } else if !has_role(roles, new_role_id) {
        Some(WorkspaceTeamServiceError::RoleNotFound)
    } else if role_id_of(rows, team_id, user_id) == Some(OWNER) && new_role_id != OWNER && holders(
        rows,
        team_id,
        OWNER,
    ) <= 1 {
        Some(WorkspaceTeamServiceError::LastOwnerRoleChange)
    } else {
        None
    }
}

/// The members after a change of role was asked for at `now`.
pub open spec fn members_after_role_change(
    rows: Seq<WorkspaceMember>,
    roles: Seq<Role>,
    team_id: u128,
    user_id: Seq<char>,
    new_role_id: u128,
    now: i64,
) -> Seq<WorkspaceMember> {
    if role_change_refusal(rows, roles, team_id, user_id, new_role_id) is None {
        let i = member_index(rows, team_id, user_id);
        rows.update(i, WorkspaceMember { role_id: new_role_id, updated_at: now, ..rows[i] })
    } else {
        rows
    }
}

/// What adding a member leaves behind and returns: a refusal and nothing
/// changed, or the membership appended.
pub open spec fn member_added(
    before: Database,
    after: Database,
    r: Result<WorkspaceMember, WorkspaceTeamServiceError>,
    team_id: u128,
    user_id: Seq<char>,
    role_id: u128,
    invited_by: Option<Seq<char>>,
    member_id: u128,
    now: i64,
) -> bool {
    &&& only_members_changed(before, after)
    &&& match add_member_refusal(before, team_id, user_id, role_id, member_id) {
        Some(refusal) => r == Err::<WorkspaceMember, WorkspaceTeamServiceError>(refusal)
            && after.member_rows() == before.member_rows(),
        None => r is Ok && {
            let member = r->Ok_0;
            &&& after.member_rows() == before.member_rows().push(member)
            &&& member.id == member_id
            &&& member.workspace_team_id == team_id
            &&& member.user_id@ == user_id
            &&& member.role_id == role_id
            &&& crate::text::text_of(member.invited_by) == invited_by
            &&& member.joined_at == now
            &&& member.created_at == now
            &&& member.updated_at == now
        },
    }
}

/// What changing a member's role leaves behind and returns: a refusal and
/// nothing changed, or the member with its new role.
pub open spec fn role_changed(
    before: Database,
    after: Database,
    r: Result<WorkspaceMember, WorkspaceTeamServiceError>,
    team_id: u128,
    user_id: Seq<char>,
    new_role_id: u128,
    now: i64,
) -> bool {
    &&& only_members_changed(before, after)
    &&& after.member_rows() == members_after_role_change(
        before.member_rows(),
        before.role_rows(),
        team_id,
        user_id,
        new_role_id,
        now,
    )
    &&& match role_change_refusal(
        before.member_rows(),
        before.role_rows(),
        team_id,
        user_id,
        new_role_id,
    ) {
        Some(refusal) => r == Err::<WorkspaceMember, WorkspaceTeamServiceError>(refusal),
        None => r == Ok::<WorkspaceMember, WorkspaceTeamServiceError>(
            after.member_rows()[member_index(before.member_rows(), team_id, user_id)],
        ),
    }
}

/// What creating a team leaves behind and returns: a refusal and nothing
/// changed, or the team and its creator's membership as owner, both
/// appended.
pub open spec fn team_created(
    before: Database,
    after: Database,
    r: Result<WorkspaceTeam, WorkspaceTeamServiceError>,
    data: CreateWorkspaceTeam,
    creator_user_id: Seq<char>,
    team_id: u128,
    member_id: u128,
    now: i64,
) -> bool {
    &&& after.permission_rows() == before.permission_rows()
    &&& after.role_rows() == before.role_rows()
    &&& after.grant_rows() == before.grant_rows()
    &&& match create_team_refusal(before, team_id, member_id) {
        Some(refusal) => {
            &&& r == Err::<WorkspaceTeam, WorkspaceTeamServiceError>(refusal)
            &&& after.team_rows() == before.team_rows()
            &&& after.member_rows() == before.member_rows()
        },
        None => r is Ok && {
            let team = r->Ok_0;
            let owner = after.member_rows().last();
            &&& after.team_rows() == before.team_rows().push(team)
            &&& team.id == team_id
            &&& team.name@ == data.name@
            &&& team.description == data.description
            &&& team.created_at == now
            &&& team.updated_at == now
            &&& after.member_rows().len() == before.member_rows().len() + 1
            &&& after.member_rows().drop_last() == before.member_rows()
            &&& owner.id == member_id
            &&& owner.workspace_team_id == team_id
            &&& owner.user_id@ == creator_user_id
            &&& owner.role_id == OWNER
            &&& owner.invited_by is None
            &&& owner.joined_at == now
            &&& owner.created_at == now
            &&& owner.updated_at == now
        },
    }
}

impl WorkspaceTeamService {
    /// The service. It keeps nothing of its own.
    pub fn new() -> (service: Self) {
        WorkspaceTeamService
    }

    /// List all workspace teams
    pub fn list_teams<'a>(&self, pool: &'a Database) -> (teams: Vec<&'a WorkspaceTeam>)
        ensures
            lists(teams@, all_teams(pool.team_rows())),
    {
        WorkspaceTeam::find_all(pool)
    }

    /// Get a workspace team by ID
    pub fn get_team<'a>(&self, pool: &'a Database, team_id: u128) -> (r: Result<
        &'a WorkspaceTeam,
        WorkspaceTeamServiceError,
    >)
        ensures
            r is Ok <==> has_team(pool.team_rows(), team_id),
            r matches Ok(team) ==> team.id == team_id && pool.team_rows().contains(*team),
            r matches Err(e) ==> e == WorkspaceTeamServiceError::TeamNotFound,
    {
        match WorkspaceTeam::find_by_id(pool, team_id) {
            Some(team) => Ok(team),
            None => Err(WorkspaceTeamServiceError::TeamNotFound),
        }
    }

    /// Update a workspace team
    pub fn update_team(
        &self,
        pool: &mut Database,
        team_id: u128,
        data: &UpdateWorkspaceTeam,
        now: i64,
    ) -> (r: Result<WorkspaceTeam, WorkspaceTeamServiceError>)
        requires
            old(pool).wf(),
        ensures
            final(pool).wf(),
            final(pool).permission_rows() == old(pool).permission_rows(),
            final(pool).role_rows() == old(pool).role_rows(),
            final(pool).grant_rows() == old(pool).grant_rows(),
            final(pool).member_rows() == old(pool).member_rows(),
            r is Ok <==> has_team(old(pool).team_rows(), team_id),
            r matches Err(e) ==> e == WorkspaceTeamServiceError::TeamNotFound && final(pool).team_rows()
                == old(pool).team_rows(),
            r matches Ok(team) ==> {
                let i = team_index(old(pool).team_rows(), team_id);
                let before = old(pool).team_rows()[i];
                &&& final(pool).team_rows() == old(pool).team_rows().update(i, team)
                &&& team.id == team_id
                &&& team.name@ == if data.name is Some {
                    data.name->0@
                } else {
                    before.name@
                }
                &&& team.description == if data.description is Some {
                    data.description
                } else {
                    before.description
                }
                &&& team.created_at == before.created_at
                &&& team.updated_at == now
            },
    {
        match WorkspaceTeam::update(pool, team_id, data, now) {
            Ok(team) => Ok(team),
            Err(_) => Err(WorkspaceTeamServiceError::TeamNotFound),
        }
    }

    /// Delete a workspace team
    pub fn delete_team(&self, pool: &mut Database, team_id: u128) -> (r: Result<
        (),
        WorkspaceTeamServiceError,
    >)
        requires
            old(pool).wf(),
        ensures
            final(pool).wf(),
            final(pool).permission_rows() == old(pool).permission_rows(),
            final(pool).role_rows() == old(pool).role_rows(),
            final(pool).grant_rows() == old(pool).grant_rows(),
            r is Ok <==> has_team(old(pool).team_rows(), team_id),
            r matches Err(e) ==> e == WorkspaceTeamServiceError::TeamNotFound && final(pool).team_rows()
                == old(pool).team_rows() && final(pool).member_rows() == old(pool).member_rows(),
            r is Ok ==> {
                &&& final(pool).team_rows() == old(pool).team_rows().remove(
                    team_index(old(pool).team_rows(), team_id),
                )
                &&& forall|m: WorkspaceMember|
                    #[trigger] final(pool).member_rows().contains(m) <==> old(pool).member_rows().contains(m)
                        && m.workspace_team_id != team_id
            },
    {
        let rows = WorkspaceTeam::delete(pool, team_id);
        if rows == 0 {
            return Err(WorkspaceTeamServiceError::TeamNotFound);
        }
        Ok(())
    }

    /// Find all workspace teams a user belongs to
    pub fn find_teams_for_user<'a>(&self, pool: &'a Database, user_id: &str) -> (teams: Vec<
        &'a WorkspaceTeam,
    >)
        ensures
            lists(teams@, teams_of_user(pool.team_rows(), pool.member_rows(), user_id@)),
    {
        WorkspaceTeam::find_by_user_id(pool, user_id)
    }

    /// List all members of a workspace team
    pub fn list_members(&self, pool: &Database, team_id: u128) -> (r: Result<
        Vec<WorkspaceMemberWithRole>,
        WorkspaceTeamServiceError,
    >)
        requires
            pool.wf(),
        ensures
            r is Ok <==> has_team(pool.team_rows(), team_id),
            r matches Err(e) ==> e == WorkspaceTeamServiceError::TeamNotFound,
            r matches Ok(found) ==> shows_members(*pool, team_id, found@),
    {
        match WorkspaceTeam::find_by_id(pool, team_id) {
            Some(_) => Ok(WorkspaceMember::find_all_with_role_for_team(pool, team_id)),
            None => Err(WorkspaceTeamServiceError::TeamNotFound),
        }
    }

    /// Add a member to a workspace team, under the identifier `member_id`
    /// and as of `now`.
    pub fn add_member_with(
        &self,
        pool: &mut Database,
        team_id: u128,
        user_id: &str,
        role_id: u128,
        invited_by: Option<&str>,
        member_id: u128,
        now: i64,
    ) -> (r: Result<WorkspaceMember, WorkspaceTeamServiceError>)
        requires
            old(pool).wf(),
        ensures
            final(pool).wf(),
            member_added(
                *old(pool),
                *final(pool),
                r,
                team_id,
                user_id@,
                role_id,
                optional_text(invited_by),
                member_id,
                now,
            ),
    {
        if WorkspaceTeam::find_by_id(pool, team_id).is_none() {
            return Err(WorkspaceTeamServiceError::TeamNotFound);
        }
        if Role::find_by_id(pool, role_id).is_none() {
            return Err(WorkspaceTeamServiceError::RoleNotFound);
        }
        if WorkspaceMember::find_by_team_and_user(pool, team_id, user_id).is_some() {
            return Err(WorkspaceTeamServiceError::AlreadyMember);
        }
        let data = CreateWorkspaceMember {
            user_id: user_id.to_owned(),
            role_id,
            invited_by: match invited_by {
                Some(inviter) => Some(inviter.to_owned()),
                None => None,
            },
        };
        match WorkspaceMember::create(pool, team_id, &data, member_id, now) {
            Ok(member) => Ok(member),
            Err(e) => Err(WorkspaceTeamServiceError::Database(e)),
        }
    }

    /// Update a member's role, as of `now`.
    pub fn update_member_role_at(
        &self,
        pool: &mut Database,
        team_id: u128,
        member_user_id: &str,
        new_role_id: u128,
        now: i64,
    ) -> (r: Result<WorkspaceMember, WorkspaceTeamServiceError>)
        requires
            old(pool).wf(),
        ensures
            final(pool).wf(),
            role_changed(*old(pool), *final(pool), r, team_id, member_user_id@, new_role_id, now),
    {
        let (member_id, current_role) = match WorkspaceMember::position_in_team(
            pool,
            team_id,
            member_user_id,
        ) {
            Some(i) => {
                proof {
                    lemma_member_index_is(pool.member_rows(), team_id, member_user_id@, i as int);
                    lemma_member_id_index_is(pool.member_rows(), pool.member_rows()[i as int].id, i as int);
                }
                (pool.members[i].id, pool.members[i].role_id)
            },
            None => {
                return Err(WorkspaceTeamServiceError::MemberNotFound);
            },
        };
        if Role::find_by_id(pool, new_role_id).is_none() {
            return Err(WorkspaceTeamServiceError::RoleNotFound);
        }
        if current_role == OWNER && new_role_id != OWNER {
            let owner_count = WorkspaceMember::count_by_role(pool, team_id, OWNER);
            if owner_count <= 1 {
                return Err(WorkspaceTeamServiceError::LastOwnerRoleChange);
            }
        }
        match WorkspaceMember::update_role(pool, member_id, new_role_id, now) {
            Ok(member) => Ok(member),
            Err(e) => Err(WorkspaceTeamServiceError::Database(e)),
        }
    }

    /// Remove a member from a workspace team
    pub fn remove_member(&self, pool: &mut Database, team_id: u128, member_user_id: &str) -> (r: Result<
        (),
        WorkspaceTeamServiceError,
    >)
        requires
            old(pool).wf(),
        ensures
            final(pool).wf(),
            only_members_changed(*old(pool), *final(pool)),
            final(pool).member_rows() == members_after_removal(
                old(pool).member_rows(),
                team_id,
                member_user_id@,
            ),
            match remove_member_refusal(old(pool).member_rows(), team_id, member_user_id@) {
                Some(refusal) => r == Err::<(), WorkspaceTeamServiceError>(refusal),
                None => r is Ok,
            },
    {
        let (member_id, current_role) = match WorkspaceMember::position_in_team(
            pool,
            team_id,
            member_user_id,
        ) {
            Some(i) => {
                proof {
                    lemma_member_index_is(pool.member_rows(), team_id, member_user_id@, i as int);
                    lemma_member_id_index_is(pool.member_rows(), pool.member_rows()[i as int].id, i as int);
                }
                (pool.members[i].id, pool.members[i].role_id)
            },
            None => {
                return Err(WorkspaceTeamServiceError::MemberNotFound);
            },
        };
        if current_role == OWNER {
            let owner_count = WorkspaceMember::count_by_role(pool, team_id, OWNER);
            if owner_count <= 1 {
                return Err(WorkspaceTeamServiceError::LastOwner);
            }
        }
        WorkspaceMember::delete(pool, member_id);
        Ok(())
    }

    /// Get member's role in a team
    pub fn get_member_role<'a>(&self, pool: &'a Database, team_id: u128, user_id: &str) -> (role: Option<
        &'a Role,
    >)
        requires
            pool.wf(),
        ensures
            role is Some == belongs_to(pool.member_rows(), team_id, user_id@),
            role matches Some(found) ==> Some(found.id) == role_id_of(
                pool.member_rows(),
                team_id,
                user_id@,
            ) && pool.role_rows().contains(*found),
    {
        WorkspaceMember::get_role(pool, team_id, user_id)
    }
}

/// Why a team cannot be created with its creator as owner, if it cannot:
/// the identifiers must be free, and the owner role must exist.
pub open spec fn create_team_refusal(pool: Database, team_id: u128, member_id: u128) -> Option<
    WorkspaceTeamServiceError,
> {
    if has_team(pool.team_rows(), team_id) {
        Some(WorkspaceTeamServiceError::Database(StoreError::UniqueViolation))
    } else if !has_role(pool.role_rows(), OWNER) {
        Some(WorkspaceTeamServiceError::Database(StoreError::ForeignKeyViolation))
    } else if has_member_id(pool.member_rows(), member_id) {
        Some(WorkspaceTeamServiceError::Database(StoreError::UniqueViolation))
    } else {
        None
    }
}

/// Whether the principal's role in the team owns the permission key.
pub open spec fn user_has_permission(pool: Database, team_id: u128, user_id: Seq<char>, key: Seq<char>) -> bool {
    match role_id_of(pool.member_rows(), team_id, user_id) {
        Some(role_id) => role_owns_key(pool.grant_rows(), pool.permission_rows(), role_id, key),
        None => false,
    }
}

impl WorkspaceTeamService {
    /// Create a new workspace team with the creator as owner, under the
    /// identifiers `team_id` and `member_id` and as of `now`. Either both
    /// the team and the membership are written, or nothing is.
    pub fn create_team_with(
        &self,
        pool: &mut Database,
        data: &CreateWorkspaceTeam,
        creator_user_id: &str,
        team_id: u128,
        member_id: u128,
        now: i64,
    ) -> (r: Result<WorkspaceTeam, WorkspaceTeamServiceError>)
        requires
            old(pool).wf(),
        ensures
            final(pool).wf(),
            team_created(*old(pool), *final(pool), r, *data, creator_user_id@, team_id, member_id, now),
    {
        if WorkspaceTeam::find_by_id(pool, team_id).is_some() {
            return Err(WorkspaceTeamServiceError::Database(StoreError::UniqueViolation));
        }
        if Role::find_by_id(pool, OWNER).is_none() {
            return Err(WorkspaceTeamServiceError::Database(StoreError::ForeignKeyViolation));
        }
        if WorkspaceMember::find_by_id(pool, member_id).is_some() {
            return Err(WorkspaceTeamServiceError::Database(StoreError::UniqueViolation));
        }
        proof {
            if belongs_to(pool.member_rows(), team_id, creator_user_id@) {
                let i = choose|i: int|
                    0 <= i < pool.member_rows().len() && (#[trigger] pool.member_rows()[i]).workspace_team_id
                        == team_id && pool.member_rows()[i].user_id@ == creator_user_id@;
                assert(has_team(pool.team_rows(), pool.member_rows()[i].workspace_team_id));
            }
        }
        let team = match WorkspaceTeam::create(pool, data, team_id, now) {
            Ok(team) => team,
            Err(e) => {
                return Err(WorkspaceTeamServiceError::Database(e));
            },
        };
        proof {
            assert(pool.team_rows()[pool.team_rows().len() - 1].id == team_id);
        }
        let member_data = CreateWorkspaceMember {
            user_id: creator_user_id.to_owned(),
            role_id: OWNER,
            invited_by: None,
        };
        match WorkspaceMember::create(pool, team_id, &member_data, member_id, now) {
            Ok(_) => {
                proof {
                    assert(pool.member_rows().drop_last() == old(pool).member_rows());
                }
                Ok(team)
            },
            Err(e) => Err(WorkspaceTeamServiceError::Database(e)),
        }
    }

    /// Check if a user has a specific permission in a workspace team
    pub fn has_permission(&self, pool: &Database, team_id: u128, user_id: &str, permission_key: &str) -> (b:
        bool)
        requires
            pool.wf(),
        ensures
            b == user_has_permission(*pool, team_id, user_id@, permission_key@),
    {
        WorkspaceMember::has_permission(pool, team_id, user_id, permission_key)
    }

    /// Get all permissions for a user in a workspace team
    pub fn get_user_permissions(&self, pool: &Database, team_id: u128, user_id: &str) -> (keys: Vec<
        String,
    >)
        requires
            pool.wf(),
        ensures
            match role_id_of(pool.member_rows(), team_id, user_id@) {
                Some(role_id) => lists_keys_of_role(*pool, role_id, keys@),
                None => keys@.len() == 0,
            },
    {
        WorkspaceMember::get_permissions(pool, team_id, user_id)
    }

    /// Require a permission, returning an error if not granted
    pub fn require_permission(
        &self,
        pool: &Database,
        team_id: u128,
        user_id: &str,
        permission_key: &str,
    ) -> (r: Result<(), WorkspaceTeamServiceError>)
        requires
            pool.wf(),
        ensures
            r is Ok <==> user_has_permission(*pool, team_id, user_id@, permission_key@),
            r matches Err(e) ==> e matches WorkspaceTeamServiceError::PermissionDenied(key) && key@
                == permission_key@,
    {
        if !self.has_permission(pool, team_id, user_id, permission_key) {
            return Err(WorkspaceTeamServiceError::PermissionDenied(permission_key.to_owned()));
        }
        Ok(())
    }

    /// List all roles
    pub fn list_roles<'a>(&self, pool: &'a Database) -> (roles: Vec<&'a Role>)
        ensures
            lists(roles@, all_roles(pool.role_rows())),
    {
        Role::find_all(pool)
    }

    /// Get a role by ID
    pub fn get_role<'a>(&self, pool: &'a Database, role_id: u128) -> (r: Result<
        &'a Role,
        WorkspaceTeamServiceError,
    >)
        ensures
            r is Ok <==> has_role(pool.role_rows(), role_id),
            r matches Ok(role) ==> role.id == role_id && pool.role_rows().contains(*role),
            r matches Err(e) ==> e == WorkspaceTeamServiceError::RoleNotFound,
    {
        match Role::find_by_id(pool, role_id) {
            Some(role) => Ok(role),
            None => Err(WorkspaceTeamServiceError::RoleNotFound),
        }
    }

    /// Get permissions for a role
    pub fn get_role_permissions(&self, pool: &Database, role_id: u128) -> (r: Result<
        Vec<String>,
        WorkspaceTeamServiceError,
    >)
        ensures
            r is Ok <==> has_role(pool.role_rows(), role_id),
            r matches Ok(keys) ==> lists_keys_of_role(*pool, role_id, keys@),
            r matches Err(e) ==> e == WorkspaceTeamServiceError::RoleNotFound,
    {
        match Role::find_by_id(pool, role_id) {
            Some(_) => Ok(Role::get_permissions(pool, role_id)),
            None => Err(WorkspaceTeamServiceError::RoleNotFound),
        }
    }

    /// List all available permissions
    pub fn list_permissions<'a>(&self, pool: &'a Database) -> (permissions: Vec<&'a Permission>)
        ensures
            lists(permissions@, all_permissions(pool.permission_rows())),
    {
        Permission::find_all(pool)
    }

    /// List permissions by category prefix (e.g., "workspace.", "task.")
    pub fn list_permissions_by_category<'a>(&self, pool: &'a Database, prefix: &str) -> (permissions: Vec<
        &'a Permission,
    >)
        ensures
            lists(permissions@, permissions_under(pool.permission_rows(), prefix@)),
    {
        Permission::find_by_prefix(pool, prefix)
    }
}

impl WorkspaceTeamService {
    /// Create a new workspace team with the creator as owner, under fresh
    /// identifiers and as of the system clock's reading. The outcome is that
    /// of `create_team_with` for some identifiers and some time.
    pub fn create_team(&self, pool: &mut Database, data: &CreateWorkspaceTeam, creator_user_id: &str) -> (r:
        Result<WorkspaceTeam, WorkspaceTeamServiceError>)
        requires
            old(pool).wf(),
        ensures
            final(pool).wf(),
            exists|team_id: u128, member_id: u128, now: i64|
                now >= 0 && #[trigger] team_created(
                    *old(pool),
                    *final(pool),
                    r,
                    *data,
                    creator_user_id@,
                    team_id,
                    member_id,
                    now,
                ),
    {
        let team_id = fresh_id();
        let member_id = fresh_id();
        let now = now_micros();
        self.create_team_with(pool, data, creator_user_id, team_id, member_id, now)
    }

    /// Add a member to a workspace team, under a fresh identifier and as of
    /// the system clock's reading. The outcome is that of `add_member_with`
    /// for some identifier and some time.
    pub fn add_member(
        &self,
        pool: &mut Database,
        team_id: u128,
        user_id: &str,
        role_id: u128,
        invited_by: Option<&str>,
    ) -> (r: Result<WorkspaceMember, WorkspaceTeamServiceError>)
        requires
            old(pool).wf(),
        ensures
            final(pool).wf(),
            exists|member_id: u128, now: i64|
                now >= 0 && #[trigger] member_added(
                    *old(pool),
                    *final(pool),
                    r,
                    team_id,
                    user_id@,
                    role_id,
                    optional_text(invited_by),
                    member_id,
                    now,
                ),
    {
        let member_id = fresh_id();
        let now = now_micros();
        self.add_member_with(pool, team_id, user_id, role_id, invited_by, member_id, now)
    }

    /// Update a member's role, as of the system clock's reading. The outcome
    /// is that of `update_member_role_at` at some time.
    pub fn update_member_role(
        &self,
        pool: &mut Database,
        team_id: u128,
        member_user_id: &str,
        new_role_id: u128,
    ) -> (r: Result<WorkspaceMember, WorkspaceTeamServiceError>)
        requires
            old(pool).wf(),
        ensures
            final(pool).wf(),
            exists|now: i64|
                now >= 0 && #[trigger] role_changed(
                    *old(pool),
                    *final(pool),
                    r,
                    team_id,
                    member_user_id@,
                    new_role_id,
                    now,
                ),
    {
        let now = now_micros();
        self.update_member_role_at(pool, team_id, member_user_id, new_role_id, now)
    }
}

/// A team holds at most one membership of a principal.
pub proof fn membership_is_unique(pool: Database, team_id: u128, user_id: Seq<char>, i: int, j: int)
    requires
        pool.wf(),
        0 <= i < pool.member_rows().len(),
        0 <= j < pool.member_rows().len(),
        is_member_row(pool.member_rows()[i], team_id, user_id),
        is_member_row(pool.member_rows()[j], team_id, user_id),
    ensures
        i == j,
{
    if i != j {
        assert(pool.member_rows()[i].id != pool.member_rows()[j].id);
    }
}

/// Once a principal was added to a team, adding it again fails as already a
/// member, whatever role that exists and whatever identifier the second
/// attempt names.
pub proof fn second_add_is_refused(
    before: Database,
    after: Database,
    first: Result<WorkspaceMember, WorkspaceTeamServiceError>,
    team_id: u128,
    user_id: Seq<char>,
    first_role: u128,
    first_inviter: Option<Seq<char>>,
    first_id: u128,
    first_now: i64,
    second_role: u128,
    second_id: u128,
)
    requires
        before.wf(),
        member_added(
            before,
            after,
            first,
            team_id,
            user_id,
            first_role,
            first_inviter,
            first_id,
            first_now,
        ),
        first is Ok,
        has_role(after.role_rows(), second_role),
    ensures
        add_member_refusal(after, team_id, user_id, second_role, second_id) == Some(
            WorkspaceTeamServiceError::AlreadyMember,
        ),
{
    let rows = after.member_rows();
    assert(is_member_row(rows[rows.len() - 1], team_id, user_id));
}

/// A request that can take an owner from a team.
pub enum TeamOp {
    Remove { user_id: Seq<char> },
    ChangeRole { user_id: Seq<char>, role_id: u128, now: i64 },
}

impl TeamOp {
    /// The members after the request was handled.
    pub open spec fn apply(self, rows: Seq<WorkspaceMember>, roles: Seq<Role>, team_id: u128) -> Seq<
        WorkspaceMember,
    > {
        match self {
            TeamOp::Remove { user_id } => members_after_removal(rows, team_id, user_id),
            TeamOp::ChangeRole { user_id, role_id, now } => members_after_role_change(
                rows,
                roles,
                team_id,
                user_id,
                role_id,
                now,
            ),
        }
    }
}

/// The members after a run of requests was handled one after the other.
pub open spec fn apply_all(
    rows: Seq<WorkspaceMember>,
    roles: Seq<Role>,
    team_id: u128,
    ops: Seq<TeamOp>,
) -> Seq<WorkspaceMember>
    decreases ops.len(),
{
    if ops.len() == 0 {
        rows
    } else {
        ops.last().apply(apply_all(rows, roles, team_id, ops.drop_last()), roles, team_id)
    }
}

/// One removal or change of role never takes a team's last owner: a team
/// that has an owner before has one after, whether the request was granted
/// or refused.
pub proof fn step_keeps_an_owner(rows: Seq<WorkspaceMember>, roles: Seq<Role>, team_id: u128, op: TeamOp)
    requires
        members_wf(rows),
        holders(rows, team_id, OWNER) >= 1,
    ensures
        members_wf(op.apply(rows, roles, team_id)),
        holders(op.apply(rows, roles, team_id), team_id, OWNER) >= 1,
{
    match op {
        TeamOp::Remove { user_id } => {
            if remove_member_refusal(rows, team_id, user_id) is None {
                let i = member_index(rows, team_id, user_id);
                crate::models::database::lemma_members_wf_remove(rows, i);
                lemma_holders_remove(rows, i, team_id, OWNER);
            }
        },
        TeamOp::ChangeRole { user_id, role_id, now } => {
            if role_change_refusal(rows, roles, team_id, user_id, role_id) is None {
                let i = member_index(rows, team_id, user_id);
                let row = WorkspaceMember { role_id, updated_at: now, ..rows[i] };
                let after = rows.update(i, row);
                lemma_holders_update(rows, i, row, team_id, OWNER);
                assert forall|a: int, b: int|
                    0 <= a < after.len() && 0 <= b < after.len() && a != b implies (
                #[trigger] after[a]).id != (#[trigger] after[b]).id && !((
                after[a]).workspace_team_id == after[b].workspace_team_id && after[a].user_id@
                    == after[b].user_id@) by {
                    assert(rows[a].id != rows[b].id);
                }
            }
        },
    }
}

/// No run of removals and changes of role takes the last owner from a team:
/// the count of owners never reaches zero.
pub proof fn owners_never_vanish(
    rows: Seq<WorkspaceMember>,
    roles: Seq<Role>,
    team_id: u128,
    ops: Seq<TeamOp>,
)
    requires
        members_wf(rows),
        holders(rows, team_id, OWNER) >= 1,
    ensures
        members_wf(apply_all(rows, roles, team_id, ops)),
        holders(apply_all(rows, roles, team_id, ops), team_id, OWNER) >= 1,
    decreases ops.len(),
{
    if ops.len() > 0 {
        owners_never_vanish(rows, roles, team_id, ops.drop_last());
        step_keeps_an_owner(
            apply_all(rows, roles, team_id, ops.drop_last()),
            roles,
            team_id,
            ops.last(),
        );
    }
}

/// The sole owner of a team can be neither removed nor given another role.
pub proof fn sole_owner_is_protected(
    rows: Seq<WorkspaceMember>,
    roles: Seq<Role>,
    team_id: u128,
    user_id: Seq<char>,
    new_role_id: u128,
)
    requires
        members_wf(rows),
        role_id_of(rows, team_id, user_id) == Some(OWNER),
        holders(rows, team_id, OWNER) == 1,
        has_role(roles, new_role_id),
        new_role_id != OWNER,
    ensures
        remove_member_refusal(rows, team_id, user_id) == Some(WorkspaceTeamServiceError::LastOwner),
        role_change_refusal(rows, roles, team_id, user_id, new_role_id) == Some(
            WorkspaceTeamServiceError::LastOwnerRoleChange,
        ),
{
}

} // verus!
