//! Role-based permission evaluation over a fixed catalog of roles.
//!
//! Each role maps to a static permission set. `Admin` holds every permission,
//! `Member` reads everything and writes what it owns, `Viewer` only reads.

use vstd::prelude::*;

use crate::ids::parse_id;
use crate::status::{FORBIDDEN, INTERNAL_SERVER_ERROR, NOT_FOUND};

verus! {

/// Permission keys for authorization checks.
#[derive(Debug, Clone, Copy, PartialEq, Eq, Hash, Structural)]
pub enum Permission {
    TaskRead,
    TaskCreate,
    TaskUpdate,
    TaskDelete,
    OwnTaskRead,
    OwnTaskUpdate,
    OwnTaskDelete,
    WorkspaceRead,
    WorkspaceCreate,
    WorkspaceUpdate,
    WorkspaceDelete,
    OwnWorkspaceRead,
    OwnWorkspaceUpdate,
    OwnWorkspaceDelete,
    SessionRead,
    SessionCreate,
    SessionUpdate,
    SessionDelete,
    OwnSessionRead,
    OwnSessionUpdate,
    OwnSessionDelete,
    ProjectRead,
    ProjectCreate,
    ProjectUpdate,
    ProjectDelete,
    AdminAccess,
}

/// Number of permission keys in the catalog.
pub const PERMISSION_COUNT: u8 = 26;

impl Permission {
    /// Position of the key in the catalog.
    pub open spec fn ordinal(self) -> int {
        match self {
            Permission::TaskRead => 0,
            Permission::TaskCreate => 1,
            Permission::TaskUpdate => 2,
            Permission::TaskDelete => 3,
            Permission::OwnTaskRead => 4,
            Permission::OwnTaskUpdate => 5,
            Permission::OwnTaskDelete => 6,
            Permission::WorkspaceRead => 7,
            Permission::WorkspaceCreate => 8,
            Permission::WorkspaceUpdate => 9,
            Permission::WorkspaceDelete => 10,
            Permission::OwnWorkspaceRead => 11,
            Permission::OwnWorkspaceUpdate => 12,
            Permission::OwnWorkspaceDelete => 13,
            Permission::SessionRead => 14,
            Permission::SessionCreate => 15,
            Permission::SessionUpdate => 16,
            Permission::SessionDelete => 17,
            Permission::OwnSessionRead => 18,
            Permission::OwnSessionUpdate => 19,
            Permission::OwnSessionDelete => 20,
            Permission::ProjectRead => 21,
            Permission::ProjectCreate => 22,
            Permission::ProjectUpdate => 23,
            Permission::ProjectDelete => 24,
            Permission::AdminAccess => 25,
        }
    }

    /// The key at a catalog position, if the position is in the catalog.
    pub fn from_ordinal(n: u8) -> (p: Option<Permission>)
        ensures
            n < PERMISSION_COUNT ==> p is Some && p->0.ordinal() == n,
            n >= PERMISSION_COUNT ==> p is None,
    {
        match n {
            0 => Some(Permission::TaskRead),
            1 => Some(Permission::TaskCreate),
            2 => Some(Permission::TaskUpdate),
            3 => Some(Permission::TaskDelete),
            4 => Some(Permission::OwnTaskRead),
            5 => Some(Permission::OwnTaskUpdate),
            6 => Some(Permission::OwnTaskDelete),
            7 => Some(Permission::WorkspaceRead),
            8 => Some(Permission::WorkspaceCreate),
            9 => Some(Permission::WorkspaceUpdate),
            10 => Some(Permission::WorkspaceDelete),
            11 => Some(Permission::OwnWorkspaceRead),
            12 => Some(Permission::OwnWorkspaceUpdate),
            13 => Some(Permission::OwnWorkspaceDelete),
            14 => Some(Permission::SessionRead),
            15 => Some(Permission::SessionCreate),
            16 => Some(Permission::SessionUpdate),
            17 => Some(Permission::SessionDelete),
            18 => Some(Permission::OwnSessionRead),
            19 => Some(Permission::OwnSessionUpdate),
            20 => Some(Permission::OwnSessionDelete),
            21 => Some(Permission::ProjectRead),
            22 => Some(Permission::ProjectCreate),
            23 => Some(Permission::ProjectUpdate),
            24 => Some(Permission::ProjectDelete),
            25 => Some(Permission::AdminAccess),
            _ => None,
        }
    }

    /// A read permission grants no change to any resource.
    pub open spec fn is_read(self) -> bool {
        match self {
            Permission::TaskRead
            | Permission::OwnTaskRead
            | Permission::WorkspaceRead
            | Permission::OwnWorkspaceRead
            | Permission::SessionRead
            | Permission::OwnSessionRead
            | Permission::ProjectRead => true,
            _ => false,
        }
    }

    /// An own-resource permission holds only over what the principal owns.
    pub open spec fn is_own_resource(self) -> bool {
        match self {
            Permission::OwnTaskRead
            | Permission::OwnTaskUpdate
            | Permission::OwnTaskDelete
            | Permission::OwnWorkspaceRead
            | Permission::OwnWorkspaceUpdate
            | Permission::OwnWorkspaceDelete
            | Permission::OwnSessionRead
            | Permission::OwnSessionUpdate
            | Permission::OwnSessionDelete => true,
            _ => false,
        }
    }
}

/// Role definitions with associated permissions.
#[derive(Debug, Clone, Copy, PartialEq, Eq, Structural)]
pub enum Role {
    /// Full access to all resources
    Admin,
    /// Standard member with read/write access to own resources
    Member,
    /// Read-only access
    Viewer,
}

impl Role {
    /// Whether the role's static permission set holds `permission`.
    pub open spec fn grants(self, permission: Permission) -> bool {
        match self {
            Role::Admin => true,
            Role::Member => match permission {
                Permission::TaskCreate
                | Permission::OwnTaskUpdate
                | Permission::OwnTaskDelete
                | Permission::WorkspaceCreate
                | Permission::OwnWorkspaceUpdate
                | Permission::OwnWorkspaceDelete
                | Permission::SessionCreate
                | Permission::OwnSessionUpdate
                | Permission::OwnSessionDelete => true,
                _ => permission.is_read(),
            },
            Role::Viewer => permission.is_read(),
        }
    }

    /// The role's permission set.
    pub open spec fn permission_set(self) -> Set<Permission> {
        Set::new(|p: Permission| self.grants(p))
    }

    /// Decides membership of one permission in the role's set.
    pub fn holds(&self, permission: Permission) -> (b: bool)
        ensures
            b == self.grants(permission),
    {
        match self {
            Role::Admin => true,
            Role::Member => match permission {
                Permission::TaskRead
                | Permission::OwnTaskRead
                | Permission::WorkspaceRead
                | Permission::OwnWorkspaceRead
                | Permission::SessionRead
                | Permission::OwnSessionRead
                | Permission::ProjectRead
                | Permission::TaskCreate
                | Permission::OwnTaskUpdate
                | Permission::OwnTaskDelete
                | Permission::WorkspaceCreate
                | Permission::OwnWorkspaceUpdate
                | Permission::OwnWorkspaceDelete
                | Permission::SessionCreate
                | Permission::OwnSessionUpdate
                | Permission::OwnSessionDelete => true,
                _ => false,
            },
            Role::Viewer => match permission {
                Permission::TaskRead
                | Permission::OwnTaskRead
                | Permission::WorkspaceRead
                | Permission::OwnWorkspaceRead
                | Permission::SessionRead
                | Permission::OwnSessionRead
                | Permission::ProjectRead => true,
                _ => false,
            },
        }
    }

    /// Get the set of permissions for this role, in catalog order.
    pub fn permissions(&self) -> (perms: Vec<Permission>)
        ensures
            perms@.no_duplicates(),
            forall|p: Permission| perms@.contains(p) <==> self.grants(p),
            perms@.to_set() == self.permission_set(),
    {
        let mut perms: Vec<Permission> = Vec::new();
        let mut n: u8 = 0;
        while n < PERMISSION_COUNT
            invariant
                n <= PERMISSION_COUNT,
                forall|i: int| 0 <= i < perms@.len() ==> #[trigger] perms@[i].ordinal() < n,
                forall|i: int, j: int|
                    0 <= i < j < perms@.len() ==> #[trigger] perms@[i].ordinal()
                        < #[trigger] perms@[j].ordinal(),
                forall|i: int| 0 <= i < perms@.len() ==> self.grants(#[trigger] perms@[i]),
                forall|p: Permission|
                    self.grants(p) && p.ordinal() < n ==> #[trigger] perms@.contains(p),
            decreases PERMISSION_COUNT - n,
        {
            let candidate = Permission::from_ordinal(n);
            match candidate {
                Some(p) => {
                    if self.holds(p) {
                        let ghost before = perms@;
                        perms.push(p);
                        proof {
                            assert(perms@[before.len() as int] == p);
                            assert forall|q: Permission|
                                self.grants(q) && q.ordinal() < n + 1 implies #[trigger] perms@.contains(
                                q,
                            ) by {
                                if q.ordinal() < n {
                                    assert(before.contains(q));
                                    let i = choose|i: int| 0 <= i < before.len() && before[i] == q;
                                    assert(perms@[i] == q);
                                } else {
                                    Permission::ordinal_is_injective(p, q);
                                }
                            }
                        }
                    } else {
                        proof {
                            assert forall|q: Permission|
                                self.grants(q) && q.ordinal() < n + 1 implies #[trigger] perms@.contains(
                                q,
                            ) by {
                                if q.ordinal() == n {
                                    Permission::ordinal_is_injective(p, q);
                                } else {
                                    assert(perms@.contains(q));
                                }
                            }
                        }
                    }
                },
                None => {},
            }
            n = n + 1;
        }
        proof {
            assert forall|p: Permission| perms@.contains(p) <==> self.grants(p) by {
                Permission::ordinal_is_bounded(p);
            }
            assert forall|i: int, j: int|
                0 <= i < perms@.len() && 0 <= j < perms@.len() && i != j implies perms@[i]
                != perms@[j] by {
                if i < j {
                    assert(perms@[i].ordinal() < perms@[j].ordinal());
                } else {
                    assert(perms@[j].ordinal() < perms@[i].ordinal());
                }
            }
            assert(perms@.to_set() =~= self.permission_set());
        }
        perms
    }
}

impl Permission {
    /// Distinct keys stand at distinct catalog positions.
    pub proof fn ordinal_is_injective(a: Permission, b: Permission)
        requires
            a.ordinal() == b.ordinal(),
        ensures
            a == b,
    {
    }

    /// Every key stands inside the catalog.
    pub proof fn ordinal_is_bounded(a: Permission)
        ensures
            0 <= a.ordinal() < PERMISSION_COUNT,
    {
    }
}

/// Every permission of `Viewer` is one of `Member`, and every permission of
/// `Member` is one of `Admin`.
pub proof fn permission_sets_are_nested()
    ensures
        forall|p: Permission| Role::Viewer.grants(p) ==> Role::Member.grants(p),
        forall|p: Permission| Role::Member.grants(p) ==> Role::Admin.grants(p),
        Role::Viewer.permission_set().subset_of(Role::Member.permission_set()),
        Role::Member.permission_set().subset_of(Role::Admin.permission_set()),
        forall|p: Permission| Role::Admin.grants(p),
{
}

/// `Member` holds every own-resource permission, and beside those and the
/// read permissions only the permissions to create tasks, workspaces and
/// sessions: it changes nothing but what it owns.
pub proof fn member_writes_only_its_own()
    ensures
        forall|p: Permission| p.is_own_resource() ==> Role::Member.grants(p),
        forall|p: Permission|
            Role::Member.grants(p) && !p.is_own_resource() && !p.is_read() ==> p
                == Permission::TaskCreate || p == Permission::WorkspaceCreate || p
                == Permission::SessionCreate,
{
}

/// `Viewer` holds the read permissions and nothing else.
pub proof fn viewer_only_reads()
    ensures
        forall|p: Permission| Role::Viewer.grants(p) <==> p.is_read(),
{
}

/// How an own-resource permission is tied to the resource it is used on.
#[derive(Debug, Clone, Copy, PartialEq, Eq, Structural)]
pub enum OwnershipStrategy {
    /// Single-tenant deployment: every principal owns every resource.
    AlwaysOwner,
    /// The resource's owner field must name the principal.
    FieldBasedOwner,
}

impl OwnershipStrategy {
    /// Whether `principal` counts as owner of a resource whose owner field is
    /// `owner`.
    pub open spec fn owns(self, principal: Option<u128>, owner: Option<u128>) -> bool {
        match self {
            OwnershipStrategy::AlwaysOwner => true,
            OwnershipStrategy::FieldBasedOwner => principal is Some && owner == principal,
        }
    }

    /// Decides `owns`.
    pub fn is_owner(&self, principal: Option<u128>, owner: Option<u128>) -> (b: bool)
        ensures
            b == self.owns(principal, owner),
    {
        match self {
            OwnershipStrategy::AlwaysOwner => true,
            OwnershipStrategy::FieldBasedOwner => match (principal, owner) {
                (Some(p), Some(o)) => p == o,
                _ => false,
            },
        }
    }
}

/// User context for authorization, extracted from request.
#[derive(Debug, Clone, Copy, PartialEq, Eq, Structural)]
pub struct AuthContext {
    pub user_id: Option<u128>,
    pub role: Role,
    pub workspace_id: Option<u128>,
}

impl Default for AuthContext {
    /// The context of a deployment without authentication: an anonymous
    /// administrator outside any workspace.
    fn default() -> (ctx: Self)
        ensures
            ctx == AuthContext::local_admin(),
    {
        AuthContext { user_id: None, role: Role::Admin, workspace_id: None }
    }
}

impl AuthContext {
    /// The context of a deployment without authentication.
    pub open spec fn local_admin() -> AuthContext {
        AuthContext { user_id: None, role: Role::Admin, workspace_id: None }
    }

    /// Whether the context's role grants `permission`.
    pub open spec fn allows(self, permission: Permission) -> bool {
        self.role.grants(permission)
    }

    /// Whether the context may act on a resource: through the general
    /// permission on any resource, through the own-resource permission on a
    /// resource it owns.
    pub open spec fn may_act(
        self,
        ownership: OwnershipStrategy,
        general: Permission,
        own: Permission,
        owner: Option<u128>,
    ) -> bool {
        self.allows(general) || (self.allows(own) && ownership.owns(self.user_id, owner))
    }

    /// Create a new auth context with the given user ID and role.
    pub fn new(user_id: Option<u128>, role: Role) -> (ctx: Self)
        ensures
            ctx == (AuthContext { user_id, role, workspace_id: None }),
    {
        AuthContext { user_id, role, workspace_id: None }
    }

    /// Set the workspace context.
    pub fn with_workspace(self, workspace_id: Option<u128>) -> (ctx: Self)
        ensures
            ctx == (AuthContext { workspace_id, ..self }),
    {
        AuthContext { user_id: self.user_id, role: self.role, workspace_id }
    }

    /// Check if the user has the given permission.
    pub fn has_permission(&self, permission: Permission) -> (b: bool)
        ensures
            b == self.allows(permission),
    {
        self.role.holds(permission)
    }

    /// Check if the user has any of the given permissions.
    pub fn has_any_permission(&self, permissions: &[Permission]) -> (b: bool)
        ensures
            b == exists|i: int| 0 <= i < permissions@.len() && self.allows(#[trigger] permissions@[i]),
    {
        let mut i: usize = 0;
        while i < permissions.len()
            invariant
                i <= permissions@.len(),
                forall|j: int| 0 <= j < i ==> !self.allows(#[trigger] permissions@[j]),
            decreases permissions@.len() - i,
        {
            if self.role.holds(permissions[i]) {
                return true;
            }
            i = i + 1;
        }
        false
    }

    /// Check if the user has all of the given permissions.
    pub fn has_all_permissions(&self, permissions: &[Permission]) -> (b: bool)
        ensures
            b == forall|i: int| 0 <= i < permissions@.len() ==> self.allows(#[trigger] permissions@[i]),
    {
        let mut i: usize = 0;
        while i < permissions.len()
            invariant
                i <= permissions@.len(),
                forall|j: int| 0 <= j < i ==> self.allows(#[trigger] permissions@[j]),
            decreases permissions@.len() - i,
        {
            if !self.role.holds(permissions[i]) {
                return false;
            }
            i = i + 1;
        }
        true
    }

    /// Fails with a forbidden status unless the role grants `permission`.
    pub fn assert_permission(&self, permission: Permission) -> (r: Result<(), u16>)
        ensures
            r is Ok <==> self.allows(permission),
            r is Err ==> r == Err::<(), u16>(FORBIDDEN),
    {
        if self.role.holds(permission) {
            Ok(())
        } else {
            Err(FORBIDDEN)
        }
    }
}

/// An administrative context passes every permission check.
pub proof fn admin_bypasses_checks(ctx: AuthContext, permission: Permission)
    requires
        ctx.role == Role::Admin,
    ensures
        ctx.allows(permission),
{
}

/// Header name for workspace context.
pub const WORKSPACE_HEADER: &'static str = "x-workspace-id";

/// The workspace a request addresses: the path parameter where there is one,
/// else the identifier that the workspace header spells, if it spells one.
pub open spec fn workspace_of_request(header: Option<Seq<char>>, path: Option<u128>) -> Option<u128> {
    match path {
        Some(id) => Some(id),
        None => match header {
            Some(text) => crate::ids::parsed_id(text),
            None => None,
        },
    }
}

/// Extract workspace ID from headers or path parameters.
pub fn extract_workspace_id(header: Option<&str>, path_workspace_id: Option<u128>) -> (id: Option<u128>)
    ensures
        id == workspace_of_request(
            match header {
                Some(h) => Some(h@),
                None => None,
            },
            path_workspace_id,
        ),
{
    match path_workspace_id {
        Some(id) => Some(id),
        None => match header {
            Some(text) => parse_id(text),
            None => None,
        },
    }
}

/// The context of an unauthenticated local request: the default
/// administrator, scoped to the workspace that the header names.
pub fn require_auth(header: Option<&str>) -> (ctx: AuthContext)
    ensures
        ctx == (AuthContext {
            workspace_id: workspace_of_request(
                match header {
                    Some(h) => Some(h@),
                    None => None,
                },
                None,
            ),
            ..AuthContext::local_admin()
        }),
{
    let workspace_id = extract_workspace_id(header, None);
    AuthContext::default().with_workspace(workspace_id)
}

/// Admits a request whose context grants `permission`. A request without a
/// context is judged as the default administrator. Refusals carry the
/// forbidden status.
pub fn require_permission(permission: Permission, auth_context: Option<AuthContext>) -> (r: Result<
    (),
    u16,
>)
    ensures
        r is Ok <==> (match auth_context {
            Some(ctx) => ctx,
            None => AuthContext::local_admin(),
        }).allows(permission),
        r is Err ==> r == Err::<(), u16>(FORBIDDEN),
{
    let ctx = match auth_context {
        Some(ctx) => ctx,
        None => AuthContext::default(),
    };
    ctx.assert_permission(permission)
}

/// Check if a user has a specific permission.
pub fn has_permission(auth_context: &AuthContext, permission: Permission) -> (b: bool)
    ensures
        b == auth_context.allows(permission),
{
    auth_context.has_permission(permission)
}

fn may_act_on(
    ownership: OwnershipStrategy,
    auth_context: &AuthContext,
    general: Permission,
    own: Permission,
    owner: Option<u128>,
) -> (b: bool)
    ensures
        b == auth_context.may_act(ownership, general, own, owner),
{
    if auth_context.has_permission(general) {
        return true;
    }
    if auth_context.has_permission(own) {
        return ownership.is_owner(auth_context.user_id, owner);
    }
    false
}

/// Check if a user can access a task whose owner field is `task_owner`.
pub fn can_access_task(
    ownership: OwnershipStrategy,
    auth_context: &AuthContext,
    task_owner: Option<u128>,
) -> (b: bool)
    ensures
        b == auth_context.may_act(
            ownership,
            Permission::TaskRead,
            Permission::OwnTaskRead,
            task_owner,
        ),
{
    may_act_on(ownership, auth_context, Permission::TaskRead, Permission::OwnTaskRead, task_owner)
}

/// Check if a user can edit a task whose owner field is `task_owner`.
pub fn can_edit_task(
    ownership: OwnershipStrategy,
    auth_context: &AuthContext,
    task_owner: Option<u128>,
) -> (b: bool)
    ensures
        b == auth_context.may_act(
            ownership,
            Permission::TaskUpdate,
            Permission::OwnTaskUpdate,
            task_owner,
        ),
{
    may_act_on(
        ownership,
        auth_context,
        Permission::TaskUpdate,
        Permission::OwnTaskUpdate,
        task_owner,
    )
}

/// Check if a user can delete a task whose owner field is `task_owner`.
pub fn can_delete_task(
    ownership: OwnershipStrategy,
    auth_context: &AuthContext,
    task_owner: Option<u128>,
) -> (b: bool)
    ensures
        b == auth_context.may_act(
            ownership,
            Permission::TaskDelete,
            Permission::OwnTaskDelete,
            task_owner,
        ),
{
    may_act_on(
        ownership,
        auth_context,
        Permission::TaskDelete,
        Permission::OwnTaskDelete,
        task_owner,
    )
}

/// Check if a user can access a workspace whose owner field is
/// `workspace_owner`.
pub fn can_access_workspace(
    ownership: OwnershipStrategy,
    auth_context: &AuthContext,
    workspace_owner: Option<u128>,
) -> (b: bool)
    ensures
        b == auth_context.may_act(
            ownership,
            Permission::WorkspaceRead,
            Permission::OwnWorkspaceRead,
            workspace_owner,
        ),
{
    may_act_on(
        ownership,
        auth_context,
        Permission::WorkspaceRead,
        Permission::OwnWorkspaceRead,
        workspace_owner,
    )
}

/// Check if a user can edit a workspace whose owner field is
/// `workspace_owner`.
pub fn can_edit_workspace(
    ownership: OwnershipStrategy,
    auth_context: &AuthContext,
    workspace_owner: Option<u128>,
) -> (b: bool)
    ensures
        b == auth_context.may_act(
            ownership,
            Permission::WorkspaceUpdate,
            Permission::OwnWorkspaceUpdate,
            workspace_owner,
        ),
{
    may_act_on(
        ownership,
        auth_context,
        Permission::WorkspaceUpdate,
        Permission::OwnWorkspaceUpdate,
        workspace_owner,
    )
}

/// Check if a user can delete a workspace whose owner field is
/// `workspace_owner`.
pub fn can_delete_workspace(
    ownership: OwnershipStrategy,
    auth_context: &AuthContext,
    workspace_owner: Option<u128>,
) -> (b: bool)
    ensures
        b == auth_context.may_act(
            ownership,
            Permission::WorkspaceDelete,
            Permission::OwnWorkspaceDelete,
            workspace_owner,
        ),
{
    may_act_on(
        ownership,
        auth_context,
        Permission::WorkspaceDelete,
        Permission::OwnWorkspaceDelete,
        workspace_owner,
    )
}

/// Check if a user can access a session whose owner field is
/// `session_owner`.
pub fn can_access_session(
    ownership: OwnershipStrategy,
    auth_context: &AuthContext,
    session_owner: Option<u128>,
) -> (b: bool)
    ensures
        b == auth_context.may_act(
            ownership,
            Permission::SessionRead,
            Permission::OwnSessionRead,
            session_owner,
        ),
{
    may_act_on(
        ownership,
        auth_context,
        Permission::SessionRead,
        Permission::OwnSessionRead,
        session_owner,
    )
}

/// Check if a user can edit a session whose owner field is `session_owner`.
pub fn can_edit_session(
    ownership: OwnershipStrategy,
    auth_context: &AuthContext,
    session_owner: Option<u128>,
) -> (b: bool)
    ensures
        b == auth_context.may_act(
            ownership,
            Permission::SessionUpdate,
            Permission::OwnSessionUpdate,
            session_owner,
        ),
{
    may_act_on(
        ownership,
        auth_context,
        Permission::SessionUpdate,
        Permission::OwnSessionUpdate,
        session_owner,
    )
}

/// Where every principal owns every resource, an own-resource permission is
/// as good as none being asked: the check is that of the role alone.
pub proof fn always_owner_ignores_owner(
    ctx: AuthContext,
    general: Permission,
    own: Permission,
    owner: Option<u128>,
)
    ensures
        ctx.may_act(OwnershipStrategy::AlwaysOwner, general, own, owner) == (ctx.allows(general)
            || ctx.allows(own)),
{
}

/// What a lookup of the addressed resource came to.
#[derive(Debug, Clone, Copy, PartialEq, Eq, Structural)]
pub enum Lookup {
    /// The resource exists.
    Found,
    /// No such resource.
    Missing,
    /// The store failed.
    Failed,
}

/// Scopes a request to a workspace that was looked up: the context, with the
/// workspace set, where the workspace exists; a not-found status where it
/// does not; an internal-error status where the lookup failed.
pub fn load_workspace_auth_context(
    lookup: Lookup,
    workspace_id: u128,
    auth_context: Option<AuthContext>,
) -> (r: Result<AuthContext, u16>)
    ensures
        r == (match lookup {
            Lookup::Found => Ok(
                AuthContext {
                    workspace_id: Some(workspace_id),
                    ..(match auth_context {
                        Some(ctx) => ctx,
                        None => AuthContext::local_admin(),
                    })
                },
            ),
            Lookup::Missing => Err(NOT_FOUND),
            Lookup::Failed => Err(INTERNAL_SERVER_ERROR),
        }),
{
    match lookup {
        Lookup::Found => {
            let ctx = match auth_context {
                Some(ctx) => ctx,
                None => AuthContext::default(),
            };
            Ok(ctx.with_workspace(Some(workspace_id)))
        },
        Lookup::Missing => Err(NOT_FOUND),
        Lookup::Failed => Err(INTERNAL_SERVER_ERROR),
    }
}

/// Admits a request on a task that was looked up: not found and failed
/// lookups are reported as such, and an existing task is admitted where the
/// context can access it.
pub fn load_task_auth_context(
    lookup: Lookup,
    ownership: OwnershipStrategy,
    task_owner: Option<u128>,
    auth_context: Option<AuthContext>,
) -> (r: Result<(), u16>)
    ensures
        r == (match lookup {
            Lookup::Found => if (match auth_context {
                Some(ctx) => ctx,
                None => AuthContext::local_admin(),
            }).may_act(ownership, Permission::TaskRead, Permission::OwnTaskRead, task_owner) {
                Ok(())
            } else {
                Err(FORBIDDEN)
            },
            Lookup::Missing => Err(NOT_FOUND),
            Lookup::Failed => Err(INTERNAL_SERVER_ERROR),
        }),
{
    match lookup {
        Lookup::Found => {
            let ctx = match auth_context {
                Some(ctx) => ctx,
                None => AuthContext::default(),
            };
            if can_access_task(ownership, &ctx, task_owner) {
                Ok(())
            } else {
                Err(FORBIDDEN)
            }
        },
        Lookup::Missing => Err(NOT_FOUND),
        Lookup::Failed => Err(INTERNAL_SERVER_ERROR),
    }
}

} // verus!
