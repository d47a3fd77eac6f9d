//! Payloads of the workspace membership and invitation endpoints.

use vstd::prelude::*;

verus! {

/// The role of a workspace member. `Admin` is the top tier.
#[derive(Debug, Clone, Copy, PartialEq, Eq, Structural)]
pub enum MemberRole {
    Admin,
    Member,
}

/// The states of an invitation. Only `Pending` has successors.
#[derive(Debug, Clone, Copy, PartialEq, Eq, Structural)]
pub enum InvitationStatus {
    Pending,
    Accepted,
    Revoked,
    Expired,
}

impl InvitationStatus {
    /// A terminal state has no successor.
    pub open spec fn is_terminal(self) -> bool {
        self != InvitationStatus::Pending
    }

    /// The transitions of the invitation state machine.
    pub open spec fn may_become(self, next: InvitationStatus) -> bool {
        self == InvitationStatus::Pending && next != InvitationStatus::Pending
    }

    /// Whether the invitation can still be accepted, revoked or found expired.
    pub fn is_pending(&self) -> (b: bool)
        ensures
            b == !self.is_terminal(),
    {
        match self {
            InvitationStatus::Pending => true,
            _ => false,
        }
    }
}

/// Workspace-level permissions for fine-grained access control
#[derive(Debug, Clone, Copy, PartialEq, Eq, Structural)]
pub enum WorkspacePermission {
    MemberInvite,
    MemberRemove,
    MemberRoleChange,
}

impl WorkspacePermission {
    /// The dotted key under which the permission is stored.
    pub open spec fn key(self) -> Seq<char> {
        match self {
            WorkspacePermission::MemberInvite => "member.invite"@,
            WorkspacePermission::MemberRemove => "member.remove"@,
            WorkspacePermission::MemberRoleChange => "member.role.change"@,
        }
    }

    /// The dotted key under which the permission is stored.
    pub fn as_key(&self) -> (key: &'static str)
        ensures
            key@ == self.key(),
    {
        match self {
            WorkspacePermission::MemberInvite => "member.invite",
            WorkspacePermission::MemberRemove => "member.remove",
            WorkspacePermission::MemberRoleChange => "member.role.change",
        }
    }
}

/// One membership: a principal's role in a workspace.
#[derive(Debug, Clone)]
pub struct WorkspaceMember {
    pub workspace_id: u128,
    pub user_id: u128,
    pub role: MemberRole,
    pub permissions: Vec<WorkspacePermission>,
    pub invited_by: Option<u128>,
    pub joined_at: i64,
}

impl WorkspaceMember {
    /// A copy that is equal to the record field by field.
    pub fn duplicate(&self) -> (copy: WorkspaceMember)
        ensures
            copy.workspace_id == self.workspace_id,
            copy.user_id == self.user_id,
            copy.role == self.role,
            copy.permissions@ == self.permissions@,
            copy.invited_by == self.invited_by,
            copy.joined_at == self.joined_at,
    {
        let mut permissions: Vec<WorkspacePermission> = Vec::new();
        let mut i: usize = 0;
        while i < self.permissions.len()
            invariant
                i <= self.permissions@.len(),
                permissions@ == self.permissions@.take(i as int),
            decreases self.permissions@.len() - i,
        {
            permissions.push(self.permissions[i]);
            assert(self.permissions@.take(i + 1) == self.permissions@.take(i as int).push(
                self.permissions@[i as int],
            ));
            i = i + 1;
        }
        assert(self.permissions@.take(i as int) == self.permissions@);
        WorkspaceMember {
            workspace_id: self.workspace_id,
            user_id: self.user_id,
            role: self.role,
            permissions,
            invited_by: self.invited_by,
            joined_at: self.joined_at,
        }
    }
}

/// Whom to invite, and into which role.
#[derive(Debug, Clone)]
pub struct InviteWorkspaceMemberRequest {
    pub email: String,
    pub role: MemberRole,
}

/// The role that a member is to have.
#[derive(Debug, Clone, Copy)]
pub struct UpdateWorkspaceMemberRoleRequest {
    pub role: MemberRole,
}

/// The role that a member has now.
#[derive(Debug, Clone, Copy, PartialEq, Eq, Structural)]
pub struct UpdateWorkspaceMemberRoleResponse {
    pub user_id: u128,
    pub role: MemberRole,
}

/// What the bearer of a token is shown of its invitation.
#[derive(Debug, Clone, Copy, PartialEq, Eq, Structural)]
pub struct GetWorkspaceInvitationResponse {
    pub id: u128,
    pub workspace_id: u128,
    pub role: MemberRole,
    pub expires_at: i64,
}

/// The workspace that was joined, and the role in it.
#[derive(Debug, Clone, Copy, PartialEq, Eq, Structural)]
pub struct AcceptWorkspaceInvitationResponse {
    pub workspace_id: u128,
    pub role: MemberRole,
}

/// The invitation to revoke.
#[derive(Debug, Clone, Copy)]
pub struct RevokeWorkspaceInvitationRequest {
    pub invitation_id: u128,
}

/// An invitation as the endpoints show it.
#[derive(Debug, Clone)]
pub struct WorkspaceInvitation {
    pub id: u128,
    pub workspace_id: u128,
    pub invited_by_user_id: Option<u128>,
    pub email: String,
    pub role: MemberRole,
    pub status: InvitationStatus,
    pub token: String,
    pub created_at: i64,
    pub expires_at: i64,
}

/// The invitation that was created.
#[derive(Debug, Clone)]
pub struct InviteWorkspaceMemberResponse {
    pub invitation: WorkspaceInvitation,
}

/// The invitations to a workspace, newest first.
#[derive(Debug, Clone)]
pub struct ListWorkspaceInvitationsResponse {
    pub invitations: Vec<WorkspaceInvitation>,
}

/// A member as the endpoints show it, with what is known of the user.
#[derive(Debug, Clone)]
pub struct WorkspaceMemberWithProfile {
    pub workspace_id: u128,
    pub user_id: u128,
    pub role: MemberRole,
    pub permissions: Vec<WorkspacePermission>,
    pub joined_at: i64,
    pub first_name: Option<String>,
    pub last_name: Option<String>,
    pub username: Option<String>,
    pub email: Option<String>,
    pub avatar_url: Option<String>,
}

/// The members of a workspace, in the order in which they joined.
#[derive(Debug, Clone)]
pub struct ListWorkspaceMembersResponse {
    pub members: Vec<WorkspaceMemberWithProfile>,
}

} // verus!
