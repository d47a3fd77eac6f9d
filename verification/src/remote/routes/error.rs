//! Refusals, and the responses that carry them.

use vstd::prelude::*;

use crate::api::workspaces::WorkspacePermission;
use crate::remote::workspace_members::{IdentityError, InvitationFault};
use crate::status::{BAD_REQUEST, CONFLICT, FORBIDDEN, INTERNAL_SERVER_ERROR, NOT_FOUND};

verus! {

/// A refusal as it is sent: a status and a message.
#[derive(Debug, Clone)]
pub struct ErrorResponse {
    pub status: u16,
    pub message: String,
}

impl ErrorResponse {
    /// A refusal with the status and the message.
    pub fn new(status: u16, message: &str) -> (response: ErrorResponse)
        ensures
            response.status == status,
            response.message@ == message@,
    {
        ErrorResponse { status, message: message.to_owned() }
    }

    /// Whether the response carries `refusal`.
    pub open spec fn carries(self, refusal: Refusal) -> bool {
        self.status == refusal.status() && self.message@ == refusal.message()
    }
}

impl InvitationFault {
    /// The message that tells the fault.
    pub open spec fn message(self) -> Seq<char> {
        match self {
            InvitationFault::Invalid => "Invitation not found or already used"@,
            InvitationFault::Expired => "Invitation has expired"@,
            InvitationFault::AlreadyMember => "You are already a member of this workspace"@,
            InvitationFault::PendingExists => "A pending invitation already exists for this email"@,
        }
    }

    /// The message that tells the fault.
    pub fn text(&self) -> (message: &'static str)
        ensures
            message@ == self.message(),
    {
        match self {
            InvitationFault::Invalid => "Invitation not found or already used",
            InvitationFault::Expired => "Invitation has expired",
            InvitationFault::AlreadyMember => "You are already a member of this workspace",
            InvitationFault::PendingExists => "A pending invitation already exists for this email",
        }
    }
}

/// Why an operation on members or invitations was refused.
#[derive(Debug, Clone, Copy, PartialEq, Eq, Structural)]
pub enum Refusal {
    /// A principal asked to remove itself.
    CannotRemoveSelf,
    /// A principal asked to lower its own role.
    CannotDemoteSelf,
    /// The caller may not use the permission that the operation needs.
    Denied(WorkspacePermission),
    /// The caller is not a top-tier member of the workspace.
    AdminRequired,
    /// The caller is not a member of the workspace.
    NotAMember,
    /// The workspace has no such member.
    MemberNotFound,
    /// The removal would take the workspace's last top-tier member.
    LastAdminRemoval,
    /// The change would lower the workspace's last top-tier member.
    LastAdminDemotion,
    /// No such invitation.
    InvitationNotFound,
    /// The invitation could not be created or accepted.
    Invitation(InvitationFault),
    /// The store failed.
    Database,
}

impl Refusal {
    /// The status under which the refusal is sent.
    pub open spec fn status(self) -> u16 {
        match self {
            Refusal::CannotRemoveSelf | Refusal::CannotDemoteSelf | Refusal::Invitation(_) => BAD_REQUEST,
            Refusal::Denied(_) | Refusal::AdminRequired | Refusal::NotAMember => FORBIDDEN,
            Refusal::MemberNotFound | Refusal::InvitationNotFound => NOT_FOUND,
            Refusal::LastAdminRemoval | Refusal::LastAdminDemotion => CONFLICT,
            Refusal::Database => INTERNAL_SERVER_ERROR,
        }
    }

    /// The message that tells the refusal.
    pub open spec fn message(self) -> Seq<char> {
        match self {
            Refusal::CannotRemoveSelf => "Cannot remove yourself"@,
            Refusal::CannotDemoteSelf => "Cannot demote yourself"@,
            Refusal::Denied(WorkspacePermission::MemberInvite) => "Permission denied: member.invite required"@,
            Refusal::Denied(WorkspacePermission::MemberRemove) => "Permission denied: member.remove required"@,
            Refusal::Denied(WorkspacePermission::MemberRoleChange) => "Permission denied: member.role.change required"@,
            Refusal::AdminRequired => "Admin access required"@,
            Refusal::NotAMember => "Not a member of workspace"@,
            Refusal::MemberNotFound => "Member not found"@,
            Refusal::LastAdminRemoval => "Cannot remove the last admin"@,
            Refusal::LastAdminDemotion => "Cannot demote the last admin"@,
            Refusal::InvitationNotFound => "Invitation not found"@,
            Refusal::Invitation(fault) => fault.message(),
            Refusal::Database => "Database error"@,
        }
    }

    /// The status under which the refusal is sent.
    pub fn status_code(&self) -> (status: u16)
        ensures
            status == self.status(),
    {
        match self {
            Refusal::CannotRemoveSelf | Refusal::CannotDemoteSelf | Refusal::Invitation(_) => BAD_REQUEST,
            Refusal::Denied(_) | Refusal::AdminRequired | Refusal::NotAMember => FORBIDDEN,
            Refusal::MemberNotFound | Refusal::InvitationNotFound => NOT_FOUND,
            Refusal::LastAdminRemoval | Refusal::LastAdminDemotion => CONFLICT,
            Refusal::Database => INTERNAL_SERVER_ERROR,
        }
    }

    /// The message that tells the refusal.
    pub fn text(&self) -> (message: &'static str)
        ensures
            message@ == self.message(),
    {
        match self {
            Refusal::CannotRemoveSelf => "Cannot remove yourself",
            Refusal::CannotDemoteSelf => "Cannot demote yourself",
            Refusal::Denied(WorkspacePermission::MemberInvite) => "Permission denied: member.invite required",
            Refusal::Denied(WorkspacePermission::MemberRemove) => "Permission denied: member.remove required",
            Refusal::Denied(WorkspacePermission::MemberRoleChange) => "Permission denied: member.role.change required",
            Refusal::AdminRequired => "Admin access required",
            Refusal::NotAMember => "Not a member of workspace",
            Refusal::MemberNotFound => "Member not found",
            Refusal::LastAdminRemoval => "Cannot remove the last admin",
            Refusal::LastAdminDemotion => "Cannot demote the last admin",
            Refusal::InvitationNotFound => "Invitation not found",
            Refusal::Invitation(fault) => fault.text(),
            Refusal::Database => "Database error",
        }
    }

    /// The response that carries the refusal.
    pub fn respond(&self) -> (response: ErrorResponse)
        ensures
            response.carries(*self),
    {
        ErrorResponse::new(self.status_code(), self.text())
    }
}

/// How a failed check of the caller's standing is refused: a caller that is
/// unknown to the workspace or lacks the permission gets `forbidden`, a
/// failed invitation is told as such, and a failing store as a store failure.
pub open spec fn membership_refusal(error: IdentityError, forbidden: Refusal) -> Refusal {
    match error {
        IdentityError::NotFound | IdentityError::PermissionDenied => forbidden,
        IdentityError::InvitationError(fault) => Refusal::Invitation(fault),
        IdentityError::Database => Refusal::Database,
    }
}

/// The response to a failed check of the caller's standing.
pub fn membership_error(error: IdentityError, forbidden: Refusal) -> (response: ErrorResponse)
    ensures
        response.carries(membership_refusal(error, forbidden)),
{
    match error {
        IdentityError::NotFound | IdentityError::PermissionDenied => forbidden.respond(),
        IdentityError::InvitationError(fault) => Refusal::Invitation(fault).respond(),
        IdentityError::Database => Refusal::Database.respond(),
    }
}

/// A store failure is told without detail, and as an internal error.
pub proof fn storage_failures_stay_generic(forbidden: Refusal)
    ensures
        membership_refusal(IdentityError::Database, forbidden).status() == INTERNAL_SERVER_ERROR,
        membership_refusal(IdentityError::Database, forbidden).message() == "Database error"@,
{
}

} // verus!
