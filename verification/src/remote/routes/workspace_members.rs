//! Membership and invitation operations, as the endpoints offer them.
//!
//! A mutation is decided on the rows as they stand when it is applied, and
//! is applied whole or not at all.

use vstd::prelude::*;
use vstd::string::StringExecFns;

use crate::api::workspaces::{
    AcceptWorkspaceInvitationResponse,
    GetWorkspaceInvitationResponse,
    InviteWorkspaceMemberRequest,
    InviteWorkspaceMemberResponse,
    ListWorkspaceInvitationsResponse,
    ListWorkspaceMembersResponse,
    MemberRole,
    RevokeWorkspaceInvitationRequest,
    UpdateWorkspaceMemberRoleRequest,
    UpdateWorkspaceMemberRoleResponse,
    WorkspaceInvitation as ApiWorkspaceInvitation,
    WorkspaceMember,
    WorkspaceMemberWithProfile,
    WorkspacePermission,
};
use crate::clock::{deadline_after, invitation_deadline, now_micros};
use crate::ids::{fresh_id, hyphenated, id_text};
use crate::order::lists;
use crate::remote::directory::Directory;
use crate::remote::routes::error::{membership_error, ErrorResponse, Refusal};
use crate::remote::users::{has_user, user_index, User};
use crate::remote::workspace_invitations::{
    accept_outcome,
    accepted,
    collides,
    has_token,
    invitations_of_workspace,
    revocation_outcome,
    revoked,
    token_index,
    WorkspaceInvitation,
};
use crate::remote::workspace_members::{
    admin_count,
    admins_of,
    assert_admin,
    assert_membership,
    assert_permission,
    has_member,
    is_admin_row,
    is_sole_admin,
    lemma_admin_count_remove,
    lemma_admin_count_update,
    lemma_admin_has_peer,
    lemma_admins_of_contains,
    lemma_admins_of_remove_other,
    lemma_remove_keeps_unique,
    lemma_role_keeps_unique,
    lemma_sole_admin_is_admin,
    may_use,
    role_of,
    row_index,
    rows_of_workspace,
    unique_pairs,
    with_role,
    without_member,
    IdentityError,
    InvitationFault,
};
use crate::text::copy_text;

verus! {

/// The principal on whose behalf a request is made.
#[derive(Debug, Clone)]
pub struct RequestUser {
    pub id: u128,
    pub username: Option<String>,
}

/// What the endpoints work on.
pub struct AppState {
    pub pool: Directory,
    pub server_public_base_url: String,
}

/// The notice of an invitation, to be sent once the invitation stands.
#[derive(Debug, Clone)]
pub struct InvitationMail {
    pub workspace_id: u128,
    pub email: String,
    pub accept_url: String,
    pub role: MemberRole,
    pub inviter_name: Option<String>,
}

/// The address at which an invitation is accepted.
pub open spec fn accept_url_of(base_url: Seq<char>, token: Seq<char>) -> Seq<char> {
    base_url + "/workspace-invitations/"@ + token + "/accept"@
}

/// What the endpoints show of an invitation.
pub fn to_api_invitation(inv: WorkspaceInvitation) -> (api: ApiWorkspaceInvitation)
    ensures
        api.id == inv.id,
        api.workspace_id == inv.workspace_id,
        api.invited_by_user_id == inv.invited_by_user_id,
        api.email == inv.email,
        api.role == inv.role,
        api.status == inv.status,
        api.token == inv.token,
        api.created_at == inv.created_at,
        api.expires_at == inv.expires_at,
{
    ApiWorkspaceInvitation {
        id: inv.id,
        workspace_id: inv.workspace_id,
        invited_by_user_id: inv.invited_by_user_id,
        email: inv.email,
        role: inv.role,
        status: inv.status,
        token: inv.token,
        created_at: inv.created_at,
        expires_at: inv.expires_at,
    }
}

/// Why a removal is refused, if it is. The checks come in this order: the
/// caller may not remove itself, needs the permission to remove, the target
/// must be a member, and must not be the workspace's sole top-tier member.
pub open spec fn removal_refusal(
    rows: Seq<WorkspaceMember>,
    actor: u128,
    workspace_id: u128,
    user_id: u128,
) -> Option<Refusal> {
    if actor == user_id {
        Some(Refusal::CannotRemoveSelf)
    } else if !may_use(rows, workspace_id, actor, WorkspacePermission::MemberRemove) {
        Some(Refusal::Denied(WorkspacePermission::MemberRemove))
    } else if !has_member(rows, workspace_id, user_id) {
        Some(Refusal::MemberNotFound)
    } else if role_of(rows, workspace_id, user_id) == Some(MemberRole::Admin) && is_sole_admin(
        rows,
        workspace_id,
        user_id,
    ) {
        Some(Refusal::LastAdminRemoval)
    } else {
        None
    }
}

/// The members after a removal was asked for.
pub open spec fn rows_after_removal(
    rows: Seq<WorkspaceMember>,
    actor: u128,
    workspace_id: u128,
    user_id: u128,
) -> Seq<WorkspaceMember> {
    if removal_refusal(rows, actor, workspace_id, user_id) is None {
        without_member(rows, workspace_id, user_id)
    } else {
        rows
    }
}

/// Why a change of role is refused, if it is. The checks come in this order:
/// the caller may not lower its own role, needs the permission to change
/// roles, and the target must be a member; a target that has the role
/// already is left as it is, and the workspace's sole top-tier member cannot
/// be lowered.
pub open spec fn role_change_refusal(
    rows: Seq<WorkspaceMember>,
    actor: u128,
    workspace_id: u128,
    user_id: u128,
    role: MemberRole,
) -> Option<Refusal> {
    if actor == user_id && role == MemberRole::Member {
        Some(Refusal::CannotDemoteSelf)
    } else if !may_use(rows, workspace_id, actor, WorkspacePermission::MemberRoleChange) {
        Some(Refusal::Denied(WorkspacePermission::MemberRoleChange))
    } else if !has_member(rows, workspace_id, user_id) {
        Some(Refusal::MemberNotFound)
    } else if role_of(rows, workspace_id, user_id) == Some(role) {
        None
    } else if role_of(rows, workspace_id, user_id) == Some(MemberRole::Admin) && role
        == MemberRole::Member && is_sole_admin(rows, workspace_id, user_id) {
        Some(Refusal::LastAdminDemotion)
    } else {
        None
    }
}

/// The members after a change of role was asked for.
pub open spec fn rows_after_role_change(
    rows: Seq<WorkspaceMember>,
    actor: u128,
    workspace_id: u128,
    user_id: u128,
    role: MemberRole,
) -> Seq<WorkspaceMember> {
    if role_change_refusal(rows, actor, workspace_id, user_id, role) is None {
        with_role(rows, workspace_id, user_id, role)
    } else {
        rows
    }
}

/// Whether `user_id` is the only entry of a locked list of top-tier members.
pub fn is_last_admin(admin_ids: &Vec<u128>, user_id: u128) -> (b: bool)
    ensures
        b == (admin_ids@.len() == 1 && admin_ids@[0] == user_id),
{
    admin_ids.len() == 1 && admin_ids[0] == user_id
}

/// Removes a member on behalf of `user`.
pub fn remove_member(state: &mut AppState, user: &RequestUser, workspace_id: u128, user_id: u128) -> (r:
    Result<(), ErrorResponse>)
    requires
        old(state).pool.wf(),
    ensures
        final(state).pool.wf(),
        final(state).pool.users == old(state).pool.users,
        final(state).pool.invitations == old(state).pool.invitations,
        final(state).server_public_base_url == old(state).server_public_base_url,
        final(state).pool.members.rows() == rows_after_removal(
            old(state).pool.members.rows(),
            user.id,
            workspace_id,
            user_id,
        ),
        match removal_refusal(old(state).pool.members.rows(), user.id, workspace_id, user_id) {
            Some(refusal) => r is Err && r->Err_0.carries(refusal),
            None => r is Ok,
        },
{
    if user.id == user_id {
        return Err(Refusal::CannotRemoveSelf.respond());
    }
    match assert_permission(
        &state.pool.members,
        workspace_id,
        user.id,
        WorkspacePermission::MemberRemove,
    ) {
        Ok(()) => {},
        Err(e) => {
            return Err(membership_error(e, Refusal::Denied(WorkspacePermission::MemberRemove)));
        },
    }
    let target_role = match state.pool.members.role(workspace_id, user_id) {
        Some(role) => role,
        None => {
            return Err(Refusal::MemberNotFound.respond());
        },
    };
    match target_role {
        MemberRole::Admin => {
            let admin_ids = state.pool.members.admin_ids(workspace_id);
            if is_last_admin(&admin_ids, user_id) {
                return Err(Refusal::LastAdminRemoval.respond());
            }
        },
        MemberRole::Member => {},
    }
    state.pool.members.remove(workspace_id, user_id);
    Ok(())
}

/// Changes a member's role on behalf of `user`.
pub fn update_member_role(
    state: &mut AppState,
    user: &RequestUser,
    workspace_id: u128,
    user_id: u128,
    payload: UpdateWorkspaceMemberRoleRequest,
) -> (r: Result<UpdateWorkspaceMemberRoleResponse, ErrorResponse>)
    requires
        old(state).pool.wf(),
    ensures
        final(state).pool.wf(),
        final(state).pool.users == old(state).pool.users,
        final(state).pool.invitations == old(state).pool.invitations,
        final(state).server_public_base_url == old(state).server_public_base_url,
        final(state).pool.members.rows() == rows_after_role_change(
            old(state).pool.members.rows(),
            user.id,
            workspace_id,
            user_id,
            payload.role,
        ),
        match role_change_refusal(
            old(state).pool.members.rows(),
            user.id,
            workspace_id,
            user_id,
            payload.role,
        ) {
            Some(refusal) => r is Err && r->Err_0.carries(refusal),
            None => r == Ok::<UpdateWorkspaceMemberRoleResponse, ErrorResponse>(
                UpdateWorkspaceMemberRoleResponse { user_id, role: payload.role },
            ),
        },
{
    let demotes = match payload.role {
        MemberRole::Member => true,
        MemberRole::Admin => false,
    };
    if user.id == user_id && demotes {
        return Err(Refusal::CannotDemoteSelf.respond());
    }
    match assert_permission(
        &state.pool.members,
        workspace_id,
        user.id,
        WorkspacePermission::MemberRoleChange,
    ) {
        Ok(()) => {},
        Err(e) => {
            return Err(membership_error(e, Refusal::Denied(WorkspacePermission::MemberRoleChange)));
        },
    }
    let target_role = match state.pool.members.role(workspace_id, user_id) {
        Some(role) => role,
        None => {
            return Err(Refusal::MemberNotFound.respond());
        },
    };
    if target_role == payload.role {
        proof {
            let rows = old(state).pool.members.rows();
            let i = row_index(rows, workspace_id, user_id);
            assert(rows.update(i, WorkspaceMember { role: payload.role, ..rows[i] }) == rows);
        }
        return Ok(UpdateWorkspaceMemberRoleResponse { user_id, role: payload.role });
    }
    match target_role {
        MemberRole::Admin => {
            if demotes {
                let admin_ids = state.pool.members.admin_ids(workspace_id);
                if is_last_admin(&admin_ids, user_id) {
                    return Err(Refusal::LastAdminDemotion.respond());
                }
            }
        },
        MemberRole::Member => {},
    }
    state.pool.members.set_role(workspace_id, user_id, payload.role);
    Ok(UpdateWorkspaceMemberRoleResponse { user_id, role: payload.role })
}

/// Admits a member of the workspace and refuses anybody else.
pub fn ensure_member_access(pool: &Directory, workspace_id: u128, user_id: u128) -> (r: Result<
    (),
    ErrorResponse,
>)
    requires
        pool.wf(),
    ensures
        r is Ok <==> has_member(pool.members.rows(), workspace_id, user_id),
        r matches Err(e) ==> e.carries(Refusal::NotAMember),
{
    match assert_membership(&pool.members, workspace_id, user_id) {
        Ok(()) => Ok(()),
        Err(e) => Err(membership_error(e, Refusal::NotAMember)),
    }
}

/// A request that can take a member out of the top tier, or put one in.
pub enum MemberOp {
    Remove { actor: u128, user_id: u128 },
    ChangeRole { actor: u128, user_id: u128, role: MemberRole },
}

impl MemberOp {
    /// The member that the request is about.
    pub open spec fn target(self) -> u128 {
        match self {
            MemberOp::Remove { user_id, .. } => user_id,
            MemberOp::ChangeRole { user_id, .. } => user_id,
        }
    }

    /// Whether the request asks to remove a member or to lower its role.
    pub open spec fn lowers(self) -> bool {
        match self {
            MemberOp::Remove { .. } => true,
            MemberOp::ChangeRole { role, .. } => role == MemberRole::Member,
        }
    }

    /// Why the request is refused on `rows`, if it is.
    pub open spec fn refusal(self, rows: Seq<WorkspaceMember>, workspace_id: u128) -> Option<Refusal> {
        match self {
            MemberOp::Remove { actor, user_id } => removal_refusal(rows, actor, workspace_id, user_id),
            MemberOp::ChangeRole { actor, user_id, role } => role_change_refusal(
                rows,
                actor,
                workspace_id,
                user_id,
                role,
            ),
        }
    }

    /// The members after the request was handled.
    pub open spec fn apply(self, rows: Seq<WorkspaceMember>, workspace_id: u128) -> Seq<
        WorkspaceMember,
    > {
        match self {
            MemberOp::Remove { actor, user_id } => rows_after_removal(
                rows,
                actor,
                workspace_id,
                user_id,
            ),
            MemberOp::ChangeRole { actor, user_id, role } => rows_after_role_change(
                rows,
                actor,
                workspace_id,
                user_id,
                role,
            ),
        }
    }
}

/// The members after a run of requests was handled one after the other,
/// which is how the requests of concurrent callers take effect.
pub open spec fn apply_all(rows: Seq<WorkspaceMember>, workspace_id: u128, ops: Seq<MemberOp>) -> Seq<
    WorkspaceMember,
>
    decreases ops.len(),
{
    if ops.len() == 0 {
        rows
    } else {
        ops.last().apply(apply_all(rows, workspace_id, ops.drop_last()), workspace_id)
    }
}

/// One removal or change of role never takes a workspace's last top-tier
/// member: a workspace that has one before has one after, whether the
/// request was granted or refused.
pub proof fn step_keeps_top_tier(rows: Seq<WorkspaceMember>, workspace_id: u128, op: MemberOp)
    requires
        unique_pairs(rows),
        admin_count(rows, workspace_id) >= 1,
    ensures
        unique_pairs(op.apply(rows, workspace_id)),
        admin_count(op.apply(rows, workspace_id), workspace_id) >= 1,
{
    if op.refusal(rows, workspace_id) is None {
        let user_id = op.target();
        let i = row_index(rows, workspace_id, user_id);
        match op {
            MemberOp::Remove { .. } => {
                lemma_remove_keeps_unique(rows, i);
                lemma_admin_count_remove(rows, i, workspace_id);
                if is_admin_row(rows[i], workspace_id) {
                    lemma_admin_has_peer(rows, workspace_id, user_id);
                }
            },
            MemberOp::ChangeRole { role, .. } => {
                let row = WorkspaceMember { role, ..rows[i] };
                lemma_role_keeps_unique(rows, i, role);
                lemma_admin_count_update(rows, i, row, workspace_id);
                if rows[i].role == role {
                    assert(rows.update(i, row) == rows);
                } else if is_admin_row(rows[i], workspace_id) {
                    lemma_admin_has_peer(rows, workspace_id, user_id);
                }
            },
        }
    }
}

/// No run of removals and changes of role empties the top tier of a
/// workspace: the count of top-tier members never reaches zero.
pub proof fn top_tier_never_empties(rows: Seq<WorkspaceMember>, workspace_id: u128, ops: Seq<MemberOp>)
    requires
        unique_pairs(rows),
        admin_count(rows, workspace_id) >= 1,
    ensures
        unique_pairs(apply_all(rows, workspace_id, ops)),
        admin_count(apply_all(rows, workspace_id, ops), workspace_id) >= 1,
    decreases ops.len(),
{
    if ops.len() > 0 {
        top_tier_never_empties(rows, workspace_id, ops.drop_last());
        step_keeps_top_tier(apply_all(rows, workspace_id, ops.drop_last()), workspace_id, ops.last());
    }
}

/// In a workspace with exactly one top-tier member, a request to remove a
/// member or to lower a role leaves that member where it is, and is refused
/// where it is aimed at that member.
pub proof fn step_spares_sole_admin(
    rows: Seq<WorkspaceMember>,
    workspace_id: u128,
    admin: u128,
    op: MemberOp,
)
    requires
        unique_pairs(rows),
        is_sole_admin(rows, workspace_id, admin),
        op.lowers(),
    ensures
        unique_pairs(op.apply(rows, workspace_id)),
        is_sole_admin(op.apply(rows, workspace_id), workspace_id, admin),
        op.target() == admin ==> op.refusal(rows, workspace_id) is Some && op.apply(
            rows,
            workspace_id,
        ) == rows,
{
    lemma_sole_admin_is_admin(rows, workspace_id, admin);
    if op.refusal(rows, workspace_id) is None {
        let user_id = op.target();
        let i = row_index(rows, workspace_id, user_id);
        assert(user_id != admin);
        if is_admin_row(rows[i], workspace_id) {
            lemma_admins_of_contains(rows, workspace_id, user_id);
            let admins = admins_of(rows, workspace_id);
            let k = choose|k: int| 0 <= k < admins.len() && admins[k] == user_id;
            assert(k == 0);
        }
        match op {
            MemberOp::Remove { .. } => {
                lemma_remove_keeps_unique(rows, i);
                lemma_admins_of_remove_other(rows, i, workspace_id);
            },
            MemberOp::ChangeRole { role, .. } => {
                assert(rows.update(i, WorkspaceMember { role, ..rows[i] }) == rows);
            },
        }
    }
}

/// For every run of requests to remove members or to lower roles in a
/// workspace with exactly one top-tier member: none of them takes that
/// member out of the top tier. Each request aimed at it is refused and
/// changes nothing, so the member is the sole top-tier member at every point
/// of the run.
pub proof fn sole_admin_survives(
    rows: Seq<WorkspaceMember>,
    workspace_id: u128,
    admin: u128,
    ops: Seq<MemberOp>,
)
    requires
        unique_pairs(rows),
        is_sole_admin(rows, workspace_id, admin),
        forall|k: int| 0 <= k < ops.len() ==> (#[trigger] ops[k]).lowers(),
    ensures
        unique_pairs(apply_all(rows, workspace_id, ops)),
        is_sole_admin(apply_all(rows, workspace_id, ops), workspace_id, admin),
        forall|k: int|
            0 <= k < ops.len() && (#[trigger] ops[k]).target() == admin ==> ops[k].refusal(
                apply_all(rows, workspace_id, ops.take(k)),
                workspace_id,
            ) is Some,
    decreases ops.len(),
{
    if ops.len() > 0 {
        let front = ops.drop_last();
        assert forall|k: int| 0 <= k < front.len() implies (#[trigger] front[k]).lowers() by {
            assert(front[k] == ops[k]);
        }
        sole_admin_survives(rows, workspace_id, admin, front);
        let state = apply_all(rows, workspace_id, front);
        step_spares_sole_admin(state, workspace_id, admin, ops.last());
        assert forall|k: int|
            0 <= k < ops.len() && (#[trigger] ops[k]).target() == admin implies ops[k].refusal(
            apply_all(rows, workspace_id, ops.take(k)),
            workspace_id,
        ) is Some by {
            if k < front.len() {
                assert(front[k] == ops[k]);
                assert(front.take(k) == ops.take(k));
            } else {
                assert(ops.take(k) == front);
            }
        }
    }
}

/// Why an invitation is refused, if it is. The caller needs the permission
/// to invite and a place in the workspace's top tier, and the invitation
/// must break no constraint of the table.
pub open spec fn invite_refusal(
    pool: Directory,
    actor: u128,
    workspace_id: u128,
    email: Seq<char>,
    id: u128,
    token: Seq<char>,
) -> Option<Refusal> {
    if !may_use(pool.members.rows(), workspace_id, actor, WorkspacePermission::MemberInvite) {
        Some(Refusal::Denied(WorkspacePermission::MemberInvite))
    } else if role_of(pool.members.rows(), workspace_id, actor) != Some(MemberRole::Admin) {
        Some(Refusal::AdminRequired)
    } else if collides(pool.invitations.rows(), id, workspace_id, email, token) {
        Some(Refusal::Invitation(InvitationFault::PendingExists))
    } else {
        None
    }
}

/// What inviting leaves behind and returns: a refusal and nothing changed,
/// or a pending invitation that runs out after the time to live, shown in
/// the response, with the notice to send for it.
pub open spec fn invited(
    before: AppState,
    after: AppState,
    r: Result<(InviteWorkspaceMemberResponse, InvitationMail), ErrorResponse>,
    user: RequestUser,
    workspace_id: u128,
    email: Seq<char>,
    role: MemberRole,
    id: u128,
    token: Seq<char>,
    now: i64,
) -> bool {
    &&& after.server_public_base_url == before.server_public_base_url
    &&& after.pool.users == before.pool.users
    &&& after.pool.members.rows() == before.pool.members.rows()
    &&& match invite_refusal(before.pool, user.id, workspace_id, email, id, token) {
        Some(refusal) => {
            &&& r is Err
            &&& r->Err_0.carries(refusal)
            &&& after.pool.invitations.rows() == before.pool.invitations.rows()
        },
        None => {
            &&& r is Ok
            &&& after.pool.invitations.rows().len() == before.pool.invitations.rows().len() + 1
            &&& after.pool.invitations.rows().drop_last() == before.pool.invitations.rows()
            &&& {
                let stored = after.pool.invitations.rows().last();
                let shown = r->Ok_0.0.invitation;
                let mail = r->Ok_0.1;
                &&& stored.id == id
                &&& stored.workspace_id == workspace_id
                &&& stored.invited_by_user_id == Some(user.id)
                &&& stored.email@ == email
                &&& stored.role == role
                &&& stored.status == crate::api::workspaces::InvitationStatus::Pending
                &&& stored.token@ == token
                &&& stored.expires_at == invitation_deadline(now)
                &&& stored.created_at == now
                &&& stored.updated_at == now
                &&& shown.id == stored.id
                &&& shown.workspace_id == stored.workspace_id
                &&& shown.invited_by_user_id == stored.invited_by_user_id
                &&& shown.email == stored.email
                &&& shown.role == stored.role
                &&& shown.status == stored.status
                &&& shown.token == stored.token
                &&& shown.created_at == stored.created_at
                &&& shown.expires_at == stored.expires_at
                &&& mail.workspace_id == workspace_id
                &&& mail.email@ == email
                &&& mail.accept_url@ == accept_url_of(before.server_public_base_url@, token)
                &&& mail.role == role
                &&& mail.inviter_name == user.username
            }
        },
    }
}

/// Invites an address on behalf of `user`, under the identifier `id` and
/// with the capability `token`, as of `now`.
pub fn invite_member_with(
    state: &mut AppState,
    user: &RequestUser,
    workspace_id: u128,
    payload: &InviteWorkspaceMemberRequest,
    id: u128,
    token: &str,
    now: i64,
) -> (r: Result<(InviteWorkspaceMemberResponse, InvitationMail), ErrorResponse>)
    requires
        old(state).pool.wf(),
        invitation_deadline(now) <= i64::MAX,
    ensures
        final(state).pool.wf(),
        invited(
            *old(state),
            *final(state),
            r,
            *user,
            workspace_id,
            payload.email@,
            payload.role,
            id,
            token@,
            now,
        ),
{
    match assert_permission(
        &state.pool.members,
        workspace_id,
        user.id,
        WorkspacePermission::MemberInvite,
    ) {
        Ok(()) => {},
        Err(e) => {
            return Err(membership_error(e, Refusal::Denied(WorkspacePermission::MemberInvite)));
        },
    }
    let expires_at = now + crate::clock::INVITATION_TTL_MICROS;
    let invitation = match state.pool.create_invitation_with(
        id,
        now,
        workspace_id,
        user.id,
        payload.email.as_str(),
        payload.role,
        expires_at,
        token,
    ) {
        Ok(invitation) => invitation,
        Err(e) => {
            return Err(membership_error(e, Refusal::AdminRequired));
        },
    };
    let mut accept_url = state.server_public_base_url.clone();
    accept_url.append("/workspace-invitations/");
    accept_url.append(token);
    accept_url.append("/accept");
    let inviter_name = match &user.username {
        Some(name) => Some(name.clone()),
        None => None,
    };
    let mail = InvitationMail {
        workspace_id,
        email: payload.email.clone(),
        accept_url,
        role: payload.role,
        inviter_name,
    };
    proof {
        assert(final(state).pool.invitations.rows().drop_last() == old(
            state,
        ).pool.invitations.rows());
    }
    Ok((InviteWorkspaceMemberResponse { invitation: to_api_invitation(invitation) }, mail))
}

/// What inviting at the time `now` comes to: the invitation is handled
/// where its deadline can be held, and fails as a store failure with nothing
/// changed where it cannot.
pub open spec fn invited_at(
    before: AppState,
    after: AppState,
    r: Result<(InviteWorkspaceMemberResponse, InvitationMail), ErrorResponse>,
    user: RequestUser,
    workspace_id: u128,
    email: Seq<char>,
    role: MemberRole,
    id: u128,
    token: Seq<char>,
    now: i64,
) -> bool {
    if invitation_deadline(now) <= i64::MAX {
        invited(before, after, r, user, workspace_id, email, role, id, token, now)
    } else {
        &&& r is Err
        &&& r->Err_0.carries(Refusal::Database)
        &&& after == before
    }
}

/// Invites an address on behalf of `user`, with a fresh identifier and a
/// fresh token, as of the system clock's reading. The outcome is that of
/// `invite_member_with` for some identifier, some token and some time; where
/// the time to live cannot be added to the clock's reading, the request
/// fails as a store failure and changes nothing.
pub fn invite_member(
    state: &mut AppState,
    user: &RequestUser,
    workspace_id: u128,
    payload: &InviteWorkspaceMemberRequest,
) -> (r: Result<(InviteWorkspaceMemberResponse, InvitationMail), ErrorResponse>)
    requires
        old(state).pool.wf(),
    ensures
        final(state).pool.wf(),
        exists|id: u128, token_id: u128, now: i64|
            now >= 0 && #[trigger] invited_at(
                *old(state),
                *final(state),
                r,
                *user,
                workspace_id,
                payload.email@,
                payload.role,
                id,
                hyphenated(token_id),
                now,
            ),
{
    let id = fresh_id();
    let token_id = fresh_id();
    let token = id_text(token_id);
    let now = now_micros();
    let r = match deadline_after(now) {
        Some(_) => invite_member_with(state, user, workspace_id, payload, id, token.as_str(), now),
        None => Err(Refusal::Database.respond()),
    };
    assert(invited_at(
        *old(state),
        *final(state),
        r,
        *user,
        workspace_id,
        payload.email@,
        payload.role,
        id,
        hyphenated(token_id),
        now,
    ));
    r
}

/// What the public page of an invitation shows.
pub fn get_invitation(state: &AppState, token: &str) -> (r: Result<
    GetWorkspaceInvitationResponse,
    ErrorResponse,
>)
    requires
        state.pool.wf(),
    ensures
        r is Ok <==> has_token(state.pool.invitations.rows(), token@),
        r matches Ok(shown) ==> {
            let invitation = state.pool.invitations.rows()[token_index(
                state.pool.invitations.rows(),
                token@,
            )];
            shown == (GetWorkspaceInvitationResponse {
                id: invitation.id,
                workspace_id: invitation.workspace_id,
                role: invitation.role,
                expires_at: invitation.expires_at,
            })
        },
        r matches Err(e) ==> e.carries(Refusal::InvitationNotFound),
{
    match state.pool.get_invitation_by_token(token) {
        Ok(invitation) => Ok(
            GetWorkspaceInvitationResponse {
                id: invitation.id,
                workspace_id: invitation.workspace_id,
                role: invitation.role,
                expires_at: invitation.expires_at,
            },
        ),
        Err(_) => Err(Refusal::InvitationNotFound.respond()),
    }
}

/// How a failed revocation is refused.
pub open spec fn revocation_refusal(error: IdentityError) -> Refusal {
    match error {
        IdentityError::PermissionDenied => Refusal::AdminRequired,
        IdentityError::NotFound => Refusal::InvitationNotFound,
        _ => Refusal::Database,
    }
}

/// Revokes an invitation of the workspace on behalf of `user`.
pub fn revoke_invitation(
    state: &mut AppState,
    user: &RequestUser,
    workspace_id: u128,
    payload: RevokeWorkspaceInvitationRequest,
) -> (r: Result<(), ErrorResponse>)
    requires
        old(state).pool.wf(),
    ensures
        final(state).pool.wf(),
        final(state).server_public_base_url == old(state).server_public_base_url,
        revoked(
            old(state).pool,
            final(state).pool,
            revocation_outcome(old(state).pool, workspace_id, payload.invitation_id, user.id),
            workspace_id,
            payload.invitation_id,
            user.id,
        ),
        match revocation_outcome(old(state).pool, workspace_id, payload.invitation_id, user.id) {
            Ok(()) => r is Ok,
            Err(e) => r is Err && r->Err_0.carries(revocation_refusal(e)),
        },
{
    match assert_admin(&state.pool.members, workspace_id, user.id) {
        Ok(()) => {},
        Err(e) => {
            return Err(membership_error(e, Refusal::AdminRequired));
        },
    }
    match state.pool.revoke_invitation(workspace_id, payload.invitation_id, user.id) {
        Ok(()) => Ok(()),
        Err(e) => {
            let response = match e {
                IdentityError::PermissionDenied => Refusal::AdminRequired.respond(),
                IdentityError::NotFound => Refusal::InvitationNotFound.respond(),
                _ => Refusal::Database.respond(),
            };
            Err(response)
        },
    }
}

/// How a failed acceptance is refused.
pub open spec fn acceptance_refusal(error: IdentityError) -> Refusal {
    match error {
        IdentityError::InvitationError(fault) => Refusal::Invitation(fault),
        IdentityError::NotFound => Refusal::InvitationNotFound,
        _ => Refusal::Database,
    }
}

/// What accepting through the endpoint leaves behind and returns.
pub open spec fn acceptance_answered(
    before: Directory,
    after: Directory,
    r: Result<AcceptWorkspaceInvitationResponse, ErrorResponse>,
    token: Seq<char>,
    user_id: u128,
    now: i64,
) -> bool {
    let outcome = accept_outcome(
        before.members.rows(),
        before.invitations.rows(),
        token,
        user_id,
        now,
    );
    &&& accepted(before, after, outcome, token, user_id, now)
    &&& match outcome {
        Ok((workspace_id, role)) => r == Ok::<AcceptWorkspaceInvitationResponse, ErrorResponse>(
            AcceptWorkspaceInvitationResponse { workspace_id, role },
        ),
        Err(e) => r is Err && r->Err_0.carries(acceptance_refusal(e)),
    }
}

fn answer_acceptance(outcome: Result<(u128, MemberRole), IdentityError>) -> (r: Result<
    AcceptWorkspaceInvitationResponse,
    ErrorResponse,
>)
    ensures
        match outcome {
            Ok((workspace_id, role)) => r == Ok::<AcceptWorkspaceInvitationResponse, ErrorResponse>(
                AcceptWorkspaceInvitationResponse { workspace_id, role },
            ),
            Err(e) => r is Err && r->Err_0.carries(acceptance_refusal(e)),
        },
{
    match outcome {
        Ok((workspace_id, role)) => Ok(AcceptWorkspaceInvitationResponse { workspace_id, role }),
        Err(IdentityError::InvitationError(fault)) => Err(Refusal::Invitation(fault).respond()),
        Err(IdentityError::NotFound) => Err(Refusal::InvitationNotFound.respond()),
        Err(_) => Err(Refusal::Database.respond()),
    }
}

/// Accepts an invitation for `user`, as of `now`.
pub fn accept_invitation_at(state: &mut AppState, user: &RequestUser, token: &str, now: i64) -> (r:
    Result<AcceptWorkspaceInvitationResponse, ErrorResponse>)
    requires
        old(state).pool.wf(),
    ensures
        final(state).pool.wf(),
        final(state).server_public_base_url == old(state).server_public_base_url,
        acceptance_answered(old(state).pool, final(state).pool, r, token@, user.id, now),
{
    let outcome = state.pool.accept_invitation_at(token, user.id, now);
    answer_acceptance(outcome)
}

/// Accepts an invitation for `user`, as of the system clock's reading.
pub fn accept_invitation(state: &mut AppState, user: &RequestUser, token: &str) -> (r: Result<
    AcceptWorkspaceInvitationResponse,
    ErrorResponse,
>)
    requires
        old(state).pool.wf(),
    ensures
        final(state).pool.wf(),
        final(state).server_public_base_url == old(state).server_public_base_url,
        exists|now: i64|
            now >= 0 && #[trigger] acceptance_answered(
                old(state).pool,
                final(state).pool,
                r,
                token@,
                user.id,
                now,
            ),
{
    let now = now_micros();
    accept_invitation_at(state, user, token, now)
}

/// Whether `shown` is the member with what is on record of its user. The
/// explicit permissions are not part of the listing.
pub open spec fn shows_profile(shown: WorkspaceMemberWithProfile, member: WorkspaceMember, user: User) -> bool {
    &&& shown.workspace_id == member.workspace_id
    &&& shown.user_id == member.user_id
    &&& shown.role == member.role
    &&& shown.permissions@.len() == 0
    &&& shown.joined_at == member.joined_at
    &&& shown.first_name == user.first_name
    &&& shown.last_name == user.last_name
    &&& shown.username == user.username
    &&& shown.email == Some(user.email)
    &&& shown.avatar_url == user.avatar_url
}

/// Whether `shown` lists the members of `listing` that are known users, in
/// the order of `listing`, each with its profile.
pub open spec fn lists_profiles(
    listing: Seq<&WorkspaceMember>,
    users: Seq<User>,
    shown: Seq<WorkspaceMemberWithProfile>,
) -> bool
    decreases listing.len(),
{
    if listing.len() == 0 {
        shown.len() == 0
    } else if has_user(users, listing.last().user_id) {
        &&& shown.len() > 0
        &&& shows_profile(
            shown.last(),
            *listing.last(),
            users[user_index(users, listing.last().user_id)],
        )
        &&& lists_profiles(listing.drop_last(), users, shown.drop_last())
    } else {
        lists_profiles(listing.drop_last(), users, shown)
    }
}

/// Whether `shown` is what a member is shown of its workspace's members:
/// those that are known users, in the order in which they joined.
pub open spec fn shows_members(pool: Directory, workspace_id: u128, shown: Seq<WorkspaceMemberWithProfile>) -> bool {
    exists|listing: Seq<&WorkspaceMember>|
        {
            &&& lists(listing, rows_of_workspace(pool.members.rows(), workspace_id))
            &&& #[trigger] lists_profiles(listing, pool.users.rows(), shown)
        }
}

/// The members of a workspace, for one of them.
pub fn list_members(state: &AppState, user: &RequestUser, workspace_id: u128) -> (r: Result<
    ListWorkspaceMembersResponse,
    ErrorResponse,
>)
    requires
        state.pool.wf(),
    ensures
        r is Ok <==> has_member(state.pool.members.rows(), workspace_id, user.id),
        r matches Err(e) ==> e.carries(Refusal::NotAMember),
        r matches Ok(response) ==> shows_members(state.pool, workspace_id, response.members@),
{
    match ensure_member_access(&state.pool, workspace_id, user.id) {
        Ok(()) => {},
        Err(e) => {
            return Err(e);
        },
    }
    let listing = state.pool.members.list(workspace_id);
    let mut members: Vec<WorkspaceMemberWithProfile> = Vec::new();
    let mut i: usize = 0;
    while i < listing.len()
        invariant
            i <= listing@.len(),
            state.pool.wf(),
            lists_profiles(listing@.take(i as int), state.pool.users.rows(), members@),
        decreases listing@.len() - i,
    {
        let member = listing[i];
        let ghost before = members@;
        proof {
            assert(listing@.take(i + 1).drop_last() == listing@.take(i as int));
            assert(listing@.take(i + 1).last() == member);
        }
        match state.pool.users.find(member.user_id) {
            Some(known) => {
                members.push(
                    WorkspaceMemberWithProfile {
                        workspace_id: member.workspace_id,
                        user_id: member.user_id,
                        role: member.role,
                        permissions: Vec::new(),
                        joined_at: member.joined_at,
                        first_name: copy_text(&known.first_name),
                        last_name: copy_text(&known.last_name),
                        username: copy_text(&known.username),
                        email: Some(known.email.clone()),
                        avatar_url: copy_text(&known.avatar_url),
                    },
                );
                proof {
                    assert(members@.drop_last() == before);
                }
            },
            None => {},
        }
        i = i + 1;
    }
    proof {
        assert(listing@.take(i as int) == listing@);
    }
    Ok(ListWorkspaceMembersResponse { members })
}

/// Whether `shown` mirrors the listing, invitation by invitation.
pub open spec fn mirrors(listing: Seq<&WorkspaceInvitation>, shown: Seq<ApiWorkspaceInvitation>) -> bool {
    &&& shown.len() == listing.len()
    &&& forall|k: int|
        0 <= k < listing.len() ==> {
            let invitation = listing[k];
            let api = #[trigger] shown[k];
            &&& api.id == invitation.id
            &&& api.workspace_id == invitation.workspace_id
            &&& api.invited_by_user_id == invitation.invited_by_user_id
            &&& api.email == invitation.email
            &&& api.role == invitation.role
            &&& api.status == invitation.status
            &&& api.token == invitation.token
            &&& api.created_at == invitation.created_at
            &&& api.expires_at == invitation.expires_at
        }
}

/// Whether `shown` is what a top-tier member is shown of its workspace's
/// invitations: all of them, newest first.
pub open spec fn shows_invitations(pool: Directory, workspace_id: u128, shown: Seq<ApiWorkspaceInvitation>) -> bool {
    exists|listing: Seq<&WorkspaceInvitation>|
        {
            &&& lists(listing, invitations_of_workspace(pool.invitations.rows(), workspace_id))
            &&& #[trigger] mirrors(listing, shown)
        }
}

/// The invitations to a workspace, for a top-tier member.
pub fn list_invitations(state: &AppState, user: &RequestUser, workspace_id: u128) -> (r: Result<
    ListWorkspaceInvitationsResponse,
    ErrorResponse,
>)
    requires
        state.pool.wf(),
    ensures
        r is Ok <==> role_of(state.pool.members.rows(), workspace_id, user.id) == Some(
            MemberRole::Admin,
        ),
        r matches Err(e) ==> e.carries(Refusal::AdminRequired),
        r matches Ok(response) ==> shows_invitations(
            state.pool,
            workspace_id,
            response.invitations@,
        ),
{
    let listing = match state.pool.list_invitations(workspace_id, user.id) {
        Ok(listing) => listing,
        Err(e) => {
            return Err(membership_error(e, Refusal::AdminRequired));
        },
    };
    let mut invitations: Vec<ApiWorkspaceInvitation> = Vec::new();
    let mut i: usize = 0;
    while i < listing.len()
        invariant
            i <= listing@.len(),
            mirrors(listing@.take(i as int), invitations@),
        decreases listing@.len() - i,
    {
        let ghost before = invitations@;
        invitations.push(to_api_invitation(listing[i].duplicate()));
        proof {
            assert forall|k: int| 0 <= k < i + 1 implies {
                let invitation = listing@.take(i + 1)[k];
                let api = #[trigger] invitations@[k];
                &&& api.id == invitation.id
                &&& api.workspace_id == invitation.workspace_id
                &&& api.invited_by_user_id == invitation.invited_by_user_id
                &&& api.email == invitation.email
                &&& api.role == invitation.role
                &&& api.status == invitation.status
                &&& api.token == invitation.token
                &&& api.created_at == invitation.created_at
                &&& api.expires_at == invitation.expires_at
            } by {
                if k < i {
                    assert(invitations@[k] == before[k]);
                    assert(listing@.take(i + 1)[k] == listing@.take(i as int)[k]);
                }
            }
        }
        i = i + 1;
    }
    proof {
        assert(listing@.take(i as int) == listing@);
    }
    Ok(ListWorkspaceInvitationsResponse { invitations })
}

} // verus!
