//! One way to ask for permissions, whatever the deployment.
//!
//! A deployment resolves permissions from a fixed table of roles, or from
//! the grants that its store holds. Either way the questions are the same:
//! does the principal hold a permission, any of some, all of some.

use vstd::prelude::*;

use crate::api::workspaces::WorkspacePermission;
use crate::authorization::{AuthContext, Permission};
use crate::models::database::Database;
use crate::models::workspace_member::WorkspaceMember;
use crate::remote::workspace_members::{may_use, MemberTable};
use crate::services::workspace_team::user_has_permission;

verus! {

/// The refusal of a principal that lacks a permission.
#[derive(Debug, Clone, Copy, PartialEq, Eq, Structural)]
pub struct PermissionDenied;

/// A principal in a context, as far as its permissions go.
pub trait AuthorizationEvaluator<P> {
    /// Whether the evaluator can be asked.
    spec fn ready(&self) -> bool;

    /// Whether the principal holds the permission.
    spec fn holds(&self, permission: P) -> bool;

    /// Decides `holds`.
    fn has_permission(&self, permission: P) -> (b: bool)
        requires
            self.ready(),
        ensures
            b == self.holds(permission),
    ;
}

/// The fixed table of roles: the context's role decides.
impl AuthorizationEvaluator<Permission> for AuthContext {
    open spec fn ready(&self) -> bool {
        true
    }

    open spec fn holds(&self, permission: Permission) -> bool {
        self.allows(permission)
    }

    fn has_permission(&self, permission: Permission) -> (b: bool) {
        self.role.holds(permission)
    }
}

/// A principal in a team of the store: the grants to its role decide.
pub struct TeamPrincipal<'a> {
    pub pool: &'a Database,
    pub team_id: u128,
    pub user_id: &'a str,
}

impl<'a> AuthorizationEvaluator<&'a str> for TeamPrincipal<'a> {
    open spec fn ready(&self) -> bool {
        self.pool.wf()
    }

    open spec fn holds(&self, permission: &'a str) -> bool {
        user_has_permission(*self.pool, self.team_id, self.user_id@, permission@)
    }

    fn has_permission(&self, permission: &'a str) -> (b: bool) {
        WorkspaceMember::has_permission(self.pool, self.team_id, self.user_id, permission)
    }
}

/// A principal in a workspace: its role and the permissions that its row
/// lists decide.
pub struct WorkspacePrincipal<'a> {
    pub members: &'a MemberTable,
    pub workspace_id: u128,
    pub user_id: u128,
}

impl<'a> AuthorizationEvaluator<WorkspacePermission> for WorkspacePrincipal<'a> {
    open spec fn ready(&self) -> bool {
        self.members.wf()
    }

    open spec fn holds(&self, permission: WorkspacePermission) -> bool {
        may_use(self.members.rows(), self.workspace_id, self.user_id, permission)
    }

    fn has_permission(&self, permission: WorkspacePermission) -> (b: bool) {
        self.members.allows(self.workspace_id, self.user_id, permission)
    }
}

/// Whether the principal holds any of the permissions.
pub fn has_any<P: Copy, E: AuthorizationEvaluator<P>>(evaluator: &E, permissions: &[P]) -> (b: bool)
    requires
        evaluator.ready(),
    ensures
        b == exists|i: int| 0 <= i < permissions@.len() && evaluator.holds(#[trigger] permissions@[i]),
{
    let mut i: usize = 0;
    while i < permissions.len()
        invariant
            i <= permissions@.len(),
            evaluator.ready(),
            forall|j: int| 0 <= j < i ==> !evaluator.holds(#[trigger] permissions@[j]),
        decreases permissions@.len() - i,
    {
        if evaluator.has_permission(permissions[i]) {
            return true;
        }
        i = i + 1;
    }
    false
}

/// Whether the principal holds all of the permissions.
pub fn has_all<P: Copy, E: AuthorizationEvaluator<P>>(evaluator: &E, permissions: &[P]) -> (b: bool)
    requires
        evaluator.ready(),
    ensures
        b == forall|i: int| 0 <= i < permissions@.len() ==> evaluator.holds(#[trigger] permissions@[i]),
{
    let mut i: usize = 0;
    while i < permissions.len()
        invariant
            i <= permissions@.len(),
            evaluator.ready(),
            forall|j: int| 0 <= j < i ==> evaluator.holds(#[trigger] permissions@[j]),
        decreases permissions@.len() - i,
    {
        if !evaluator.has_permission(permissions[i]) {
            return false;
        }
        i = i + 1;
    }
    true
}

/// Succeeds where the principal holds the permission, and refuses where it
/// does not.
pub fn assert_permission<P, E: AuthorizationEvaluator<P>>(evaluator: &E, permission: P) -> (r: Result<
    (),
    PermissionDenied,
>)
    requires
        evaluator.ready(),
    ensures
        r is Ok <==> evaluator.holds(permission),
{
    if evaluator.has_permission(permission) {
        Ok(())
    } else {
        Err(PermissionDenied)
    }
}

} // verus!
