//! The tables of the single-tenant deployment, and what holds of them.

use vstd::prelude::*;

use crate::models::permission::Permission;
use crate::models::role::Role;
use crate::models::workspace_member::WorkspaceMember;
use crate::models::workspace_team::WorkspaceTeam;

verus! {

/// A constraint of the store that a write ran into.
#[derive(Debug, Clone, Copy, PartialEq, Eq, Structural)]
pub enum StoreError {
    /// The row that a write was to change is not there.
    RowNotFound,
    /// The write would give two rows the same identifier or the same name.
    UniqueViolation,
    /// The write would leave a row that refers to a row that is not there.
    ForeignKeyViolation,
    /// The store could not be reached, or failed in another way.
    Unavailable,
}

/// A grant of one permission to one role.
#[derive(Debug, Clone, Copy, PartialEq, Eq, Structural)]
pub struct RolePermission {
    pub role_id: u128,
    pub permission_id: u128,
}

/// The tables.
pub struct Database {
    pub(crate) permissions: Vec<Permission>,
    pub(crate) roles: Vec<Role>,
    pub(crate) role_permissions: Vec<RolePermission>,
    pub(crate) teams: Vec<WorkspaceTeam>,
    pub(crate) members: Vec<WorkspaceMember>,
}

/// No two permissions share an identifier or a key.
pub open spec fn permissions_wf(rows: Seq<Permission>) -> bool {
    forall|i: int, j: int|
        0 <= i < rows.len() && 0 <= j < rows.len() && i != j ==> (#[trigger] rows[i]).id != (
        #[trigger] rows[j]).id && rows[i].key@ != rows[j].key@
}

/// No two roles share an identifier or a name.
pub open spec fn roles_wf(rows: Seq<Role>) -> bool {
    forall|i: int, j: int|
        0 <= i < rows.len() && 0 <= j < rows.len() && i != j ==> (#[trigger] rows[i]).id != (
        #[trigger] rows[j]).id && rows[i].name@ != rows[j].name@
}

/// No grant is listed twice.
pub open spec fn grants_wf(rows: Seq<RolePermission>) -> bool {
    forall|i: int, j: int|
        0 <= i < rows.len() && 0 <= j < rows.len() && i != j ==> #[trigger] rows[i]
            != #[trigger] rows[j]
}

/// No two teams share an identifier.
pub open spec fn teams_wf(rows: Seq<WorkspaceTeam>) -> bool {
    forall|i: int, j: int|
        0 <= i < rows.len() && 0 <= j < rows.len() && i != j ==> (#[trigger] rows[i]).id != (
        #[trigger] rows[j]).id
}

/// No two members share an identifier, and no principal has two rows in one
/// team.
pub open spec fn members_wf(rows: Seq<WorkspaceMember>) -> bool {
    forall|i: int, j: int|
        0 <= i < rows.len() && 0 <= j < rows.len() && i != j ==> (#[trigger] rows[i]).id != (
        #[trigger] rows[j]).id && !((rows[i]).workspace_team_id == rows[j].workspace_team_id
            && rows[i].user_id@ == rows[j].user_id@)
}

/// Whether a role has the identifier.
pub open spec fn has_role(roles: Seq<Role>, id: u128) -> bool {
    exists|i: int| 0 <= i < roles.len() && (#[trigger] roles[i]).id == id
}

/// Whether a team has the identifier.
pub open spec fn has_team(teams: Seq<WorkspaceTeam>, id: u128) -> bool {
    exists|i: int| 0 <= i < teams.len() && (#[trigger] teams[i]).id == id
}

/// Whether a permission has the identifier.
pub open spec fn has_permission_id(permissions: Seq<Permission>, id: u128) -> bool {
    exists|i: int| 0 <= i < permissions.len() && (#[trigger] permissions[i]).id == id
}

/// Every member belongs to a team that exists and holds a role that exists.
pub open spec fn members_refer(
    members: Seq<WorkspaceMember>,
    roles: Seq<Role>,
    teams: Seq<WorkspaceTeam>,
) -> bool {
    forall|i: int|
        0 <= i < members.len() ==> has_role(roles, (#[trigger] members[i]).role_id) && has_team(
            teams,
            members[i].workspace_team_id,
        )
}

/// Every grant is of a permission that exists to a role that exists.
pub open spec fn grants_refer(
    grants: Seq<RolePermission>,
    roles: Seq<Role>,
    permissions: Seq<Permission>,
) -> bool {
    forall|i: int|
        0 <= i < grants.len() ==> has_role(roles, (#[trigger] grants[i]).role_id)
            && has_permission_id(permissions, grants[i].permission_id)
}

impl Database {
    /// The catalog of permissions, in the order in which they were entered.
    pub open(crate) spec fn permission_rows(&self) -> Seq<Permission> {
        self.permissions@
    }

    /// The roles, in the order in which they were entered.
    pub open(crate) spec fn role_rows(&self) -> Seq<Role> {
        self.roles@
    }

    /// The grants of permissions to roles.
    pub open(crate) spec fn grant_rows(&self) -> Seq<RolePermission> {
        self.role_permissions@
    }

    /// The teams, in the order in which they were entered.
    pub open(crate) spec fn team_rows(&self) -> Seq<WorkspaceTeam> {
        self.teams@
    }

    /// The memberships, in the order in which they were entered.
    pub open(crate) spec fn member_rows(&self) -> Seq<WorkspaceMember> {
        self.members@
    }

    /// The constraints of the store.
    pub open spec fn wf(&self) -> bool {
        &&& permissions_wf(self.permission_rows())
        &&& roles_wf(self.role_rows())
        &&& grants_wf(self.grant_rows())
        &&& teams_wf(self.team_rows())
        &&& members_wf(self.member_rows())
        &&& members_refer(self.member_rows(), self.role_rows(), self.team_rows())
        &&& grants_refer(self.grant_rows(), self.role_rows(), self.permission_rows())
    }

    /// A store without rows.
    pub fn new() -> (pool: Database)
        ensures
            pool.wf(),
            pool.permission_rows().len() == 0,
            pool.role_rows().len() == 0,
            pool.grant_rows().len() == 0,
            pool.team_rows().len() == 0,
            pool.member_rows().len() == 0,
    {
        Database {
            permissions: Vec::new(),
            roles: Vec::new(),
            role_permissions: Vec::new(),
            teams: Vec::new(),
            members: Vec::new(),
        }
    }
}

/// A role that exists still exists when a role is added.
pub proof fn lemma_has_role_push(roles: Seq<Role>, role: Role, id: u128)
    requires
        has_role(roles, id),
    ensures
        has_role(roles.push(role), id),
{
    let i = choose|i: int| 0 <= i < roles.len() && (#[trigger] roles[i]).id == id;
    assert(roles.push(role)[i].id == id);
}

/// A role that exists still exists when a row is replaced by one with the
/// same identifier.
pub proof fn lemma_has_role_update(roles: Seq<Role>, at: int, role: Role, id: u128)
    requires
        has_role(roles, id),
        0 <= at < roles.len(),
        role.id == roles[at].id,
    ensures
        has_role(roles.update(at, role), id),
{
    let i = choose|i: int| 0 <= i < roles.len() && (#[trigger] roles[i]).id == id;
    assert(roles.update(at, role)[i].id == id);
}

/// A role that exists still exists when another role is removed.
pub proof fn lemma_has_role_remove(roles: Seq<Role>, at: int, id: u128)
    requires
        has_role(roles, id),
        0 <= at < roles.len(),
        roles[at].id != id,
    ensures
        has_role(roles.remove(at), id),
{
    let i = choose|i: int| 0 <= i < roles.len() && (#[trigger] roles[i]).id == id;
    if i < at {
        assert(roles.remove(at)[i].id == id);
    } else {
        assert(roles.remove(at)[i - 1].id == id);
    }
}

/// A team that exists still exists when a team is added.
pub proof fn lemma_has_team_push(teams: Seq<WorkspaceTeam>, team: WorkspaceTeam, id: u128)
    requires
        has_team(teams, id),
    ensures
        has_team(teams.push(team), id),
{
    let i = choose|i: int| 0 <= i < teams.len() && (#[trigger] teams[i]).id == id;
    assert(teams.push(team)[i].id == id);
}

/// A team that exists still exists when a row is replaced by one with the
/// same identifier.
pub proof fn lemma_has_team_update(teams: Seq<WorkspaceTeam>, at: int, team: WorkspaceTeam, id: u128)
    requires
        has_team(teams, id),
        0 <= at < teams.len(),
        team.id == teams[at].id,
    ensures
        has_team(teams.update(at, team), id),
{
    let i = choose|i: int| 0 <= i < teams.len() && (#[trigger] teams[i]).id == id;
    assert(teams.update(at, team)[i].id == id);
}

/// A team that exists still exists when another team is removed.
pub proof fn lemma_has_team_remove(teams: Seq<WorkspaceTeam>, at: int, id: u128)
    requires
        has_team(teams, id),
        0 <= at < teams.len(),
        teams[at].id != id,
    ensures
        has_team(teams.remove(at), id),
{
    let i = choose|i: int| 0 <= i < teams.len() && (#[trigger] teams[i]).id == id;
    if i < at {
        assert(teams.remove(at)[i].id == id);
    } else {
        assert(teams.remove(at)[i - 1].id == id);
    }
}

/// What a sequence holds after one of its values was removed.
pub proof fn lemma_remove_contains<T>(rows: Seq<T>, at: int, value: T)
    requires
        0 <= at < rows.len(),
    ensures
        rows.remove(at).contains(value) ==> rows.contains(value),
        rows.contains(value) && value != rows[at] ==> rows.remove(at).contains(value),
{
    let after = rows.remove(at);
    if after.contains(value) {
        let k = choose|k: int| 0 <= k < after.len() && after[k] == value;
        if k < at {
            assert(rows[k] == value);
        } else {
            assert(rows[k + 1] == value);
        }
    }
    if rows.contains(value) && value != rows[at] {
        let k = choose|k: int| 0 <= k < rows.len() && rows[k] == value;
        if k < at {
            assert(after[k] == value);
        } else {
            assert(after[k - 1] == value);
        }
    }
}

/// Removing a member keeps the constraints on members.
pub proof fn lemma_members_wf_remove(rows: Seq<WorkspaceMember>, at: int)
    requires
        members_wf(rows),
        0 <= at < rows.len(),
    ensures
        members_wf(rows.remove(at)),
{
    let after = rows.remove(at);
    assert forall|a: int, b: int|
        0 <= a < after.len() && 0 <= b < after.len() && a != b implies (#[trigger] after[a]).id != (
    #[trigger] after[b]).id && !((after[a]).workspace_team_id == after[b].workspace_team_id
        && after[a].user_id@ == after[b].user_id@) by {
        let a0 = if a < at { a } else { a + 1 };
        let b0 = if b < at { b } else { b + 1 };
        assert(rows[a0].id != rows[b0].id);
    }
}

} // verus!
