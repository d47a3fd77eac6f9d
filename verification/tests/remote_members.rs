use workspace_authz::api::workspaces::{
    InvitationStatus, InviteWorkspaceMemberRequest, MemberRole, RevokeWorkspaceInvitationRequest,
    UpdateWorkspaceMemberRoleRequest, UpdateWorkspaceMemberRoleResponse, WorkspacePermission,
};
use workspace_authz::clock::{deadline_after, INVITATION_TTL_MICROS};
use workspace_authz::remote::directory::Directory;
use workspace_authz::remote::routes::error::{membership_error, ErrorResponse, Refusal};
use workspace_authz::remote::routes::workspace_members::{
    accept_invitation, accept_invitation_at, ensure_member_access, get_invitation, invite_member,
    invite_member_with, is_last_admin, remove_member, revoke_invitation, to_api_invitation,
    update_member_role, AppState, RequestUser,
};
use workspace_authz::remote::workspace_invitations::WorkspaceInvitationRepository;
use workspace_authz::remote::workspace_members::{
    add_member, assert_admin, assert_membership, assert_permission, check_user_role,
    has_permission, is_member, IdentityError, InvitationFault,
};

const W: u128 = 0x1000;
const OTHER_W: u128 = 0x2000;
const ADMIN: u128 = 0xa;
const USER_A: u128 = 0xb;
const USER_B: u128 = 0xc;

fn user(id: u128) -> RequestUser {
    RequestUser { id, username: Some(format!("user-{}", id)) }
}

fn state_with_admin() -> AppState {
    let mut pool = Directory::new();
    add_member(&mut pool.members, W, ADMIN, MemberRole::Admin, None, 10);
    AppState { pool, server_public_base_url: "https://kanban.example".to_string() }
}

fn refused(response: Result<(), ErrorResponse>) -> (u16, String) {
    let e = response.unwrap_err();
    (e.status, e.message)
}

fn invite(state: &mut AppState, id: u128, email: &str, token: &str, now: i64) {
    let payload = InviteWorkspaceMemberRequest { email: email.to_string(), role: MemberRole::Member };
    invite_member_with(state, &user(ADMIN), W, &payload, id, token, now).unwrap();
}

#[test]
fn sole_admin_cannot_be_removed_until_it_has_a_peer() {
    let mut state = state_with_admin();
    add_member(&mut state.pool.members, W, USER_A, MemberRole::Member, Some(ADMIN), 20);
    state.pool.members.set_permissions(
        W,
        USER_A,
        vec![WorkspacePermission::MemberRemove, WorkspacePermission::MemberRoleChange],
    );
    // The sole admin cannot remove itself, nor can anybody else remove it.
    assert_eq!(
        refused(remove_member(&mut state, &user(ADMIN), W, ADMIN)),
        (400, "Cannot remove yourself".to_string())
    );
    assert_eq!(
        refused(remove_member(&mut state, &user(USER_A), W, ADMIN)),
        (409, "Cannot remove the last admin".to_string())
    );
    let demote = UpdateWorkspaceMemberRoleRequest { role: MemberRole::Member };
    let e = update_member_role(&mut state, &user(USER_A), W, ADMIN, demote).unwrap_err();
    assert_eq!((e.status, e.message.as_str()), (409, "Cannot demote the last admin"));
    let e = update_member_role(&mut state, &user(ADMIN), W, ADMIN, demote).unwrap_err();
    assert_eq!((e.status, e.message.as_str()), (400, "Cannot demote yourself"));
    assert_eq!(check_user_role(&state.pool.members, W, ADMIN), Some(MemberRole::Admin));
    assert_eq!(state.pool.members.admin_ids(W), vec![ADMIN]);
    // With a second admin the first can go.
    let promote = UpdateWorkspaceMemberRoleRequest { role: MemberRole::Admin };
    assert_eq!(
        update_member_role(&mut state, &user(ADMIN), W, USER_A, promote).unwrap(),
        UpdateWorkspaceMemberRoleResponse { user_id: USER_A, role: MemberRole::Admin }
    );
    assert_eq!(state.pool.members.admin_ids(W), vec![ADMIN, USER_A]);
    assert!(remove_member(&mut state, &user(USER_A), W, ADMIN).is_ok());
    assert_eq!(check_user_role(&state.pool.members, W, ADMIN), None);
    assert_eq!(state.pool.members.admin_ids(W), vec![USER_A]);
}

#[test]
fn a_run_of_removals_and_demotions_spares_the_sole_admin() {
    let mut state = state_with_admin();
    for member in [USER_A, USER_B] {
        add_member(&mut state.pool.members, W, member, MemberRole::Member, None, 20);
        state.pool.members.set_permissions(
            W,
            member,
            vec![WorkspacePermission::MemberRemove, WorkspacePermission::MemberRoleChange],
        );
    }
    let demote = UpdateWorkspaceMemberRoleRequest { role: MemberRole::Member };
    for actor in [USER_A, USER_B, ADMIN, USER_A] {
        assert!(remove_member(&mut state, &user(actor), W, ADMIN).is_err());
        assert!(update_member_role(&mut state, &user(actor), W, ADMIN, demote).is_err());
        assert_eq!(state.pool.members.admin_ids(W), vec![ADMIN]);
    }
    assert!(remove_member(&mut state, &user(USER_A), W, USER_B).is_ok());
    assert_eq!(state.pool.members.admin_ids(W), vec![ADMIN]);
    assert_eq!(state.pool.members.entries().len(), 2);
}

#[test]
fn removal_is_checked_in_order() {
    let mut state = state_with_admin();
    add_member(&mut state.pool.members, W, USER_A, MemberRole::Member, None, 20);
    // Without the permission.
    assert_eq!(
        refused(remove_member(&mut state, &user(USER_A), W, USER_B)),
        (403, "Permission denied: member.remove required".to_string())
    );
    // A stranger to the workspace.
    assert_eq!(
        refused(remove_member(&mut state, &user(USER_B), W, USER_A)),
        (403, "Permission denied: member.remove required".to_string())
    );
    // A target that is no member.
    assert_eq!(
        refused(remove_member(&mut state, &user(ADMIN), W, USER_B)),
        (404, "Member not found".to_string())
    );
    // Another workspace has no such admin.
    assert_eq!(
        refused(remove_member(&mut state, &user(ADMIN), OTHER_W, USER_A)),
        (403, "Permission denied: member.remove required".to_string())
    );
    assert!(remove_member(&mut state, &user(ADMIN), W, USER_A).is_ok());
    assert!(!is_member(&state.pool.members, W, USER_A));
}

#[test]
fn role_change_is_checked_in_order() {
    let mut state = state_with_admin();
    add_member(&mut state.pool.members, W, USER_A, MemberRole::Member, None, 20);
    let to_member = UpdateWorkspaceMemberRoleRequest { role: MemberRole::Member };
    let to_admin = UpdateWorkspaceMemberRoleRequest { role: MemberRole::Admin };
    let e = update_member_role(&mut state, &user(USER_A), W, ADMIN, to_member).unwrap_err();
    assert_eq!((e.status, e.message.as_str()), (403, "Permission denied: member.role.change required"));
    let e = update_member_role(&mut state, &user(ADMIN), W, USER_B, to_admin).unwrap_err();
    assert_eq!((e.status, e.message.as_str()), (404, "Member not found"));
    // The role that the member has already is confirmed, and nothing changes.
    assert_eq!(
        update_member_role(&mut state, &user(ADMIN), W, USER_A, to_member).unwrap(),
        UpdateWorkspaceMemberRoleResponse { user_id: USER_A, role: MemberRole::Member }
    );
    // An admin may confirm its own role.
    assert_eq!(
        update_member_role(&mut state, &user(ADMIN), W, ADMIN, to_admin).unwrap(),
        UpdateWorkspaceMemberRoleResponse { user_id: ADMIN, role: MemberRole::Admin }
    );
    assert_eq!(state.pool.members.admin_ids(W), vec![ADMIN]);
}

#[test]
fn last_admin_is_the_only_entry_of_the_list() {
    assert!(is_last_admin(&vec![7], 7));
    assert!(!is_last_admin(&vec![7], 8));
    assert!(!is_last_admin(&vec![7, 8], 7));
    assert!(!is_last_admin(&vec![], 7));
}

#[test]
fn membership_is_one_row_per_pair() {
    let mut pool = Directory::new();
    add_member(&mut pool.members, W, USER_A, MemberRole::Member, Some(ADMIN), 5);
    add_member(&mut pool.members, W, USER_A, MemberRole::Admin, None, 9);
    add_member(&mut pool.members, OTHER_W, USER_A, MemberRole::Member, None, 9);
    let rows = pool.members.entries();
    assert_eq!(rows.len(), 2);
    // The second write refreshed the role and kept the rest.
    assert_eq!(rows[0].role, MemberRole::Admin);
    assert_eq!(rows[0].invited_by, Some(ADMIN));
    assert_eq!(rows[0].joined_at, 5);
    assert_eq!(rows[1].workspace_id, OTHER_W);
    assert!(rows[1].permissions.is_empty());
}

#[test]
fn permissions_of_members_and_admins() {
    let mut state = state_with_admin();
    add_member(&mut state.pool.members, W, USER_A, MemberRole::Member, None, 20);
    let members = &mut state.pool.members;
    assert!(has_permission(members, W, ADMIN, WorkspacePermission::MemberInvite));
    assert!(!has_permission(members, W, USER_A, WorkspacePermission::MemberInvite));
    assert!(!has_permission(members, W, USER_B, WorkspacePermission::MemberInvite));
    assert!(members.set_permissions(W, USER_A, vec![WorkspacePermission::MemberInvite]));
    assert!(!members.set_permissions(W, USER_B, vec![]));
    assert!(has_permission(members, W, USER_A, WorkspacePermission::MemberInvite));
    assert!(!has_permission(members, W, USER_A, WorkspacePermission::MemberRemove));
    assert_eq!(assert_permission(members, W, USER_A, WorkspacePermission::MemberInvite), Ok(()));
    assert_eq!(
        assert_permission(members, W, USER_A, WorkspacePermission::MemberRemove),
        Err(IdentityError::PermissionDenied)
    );
    assert_eq!(assert_admin(members, W, ADMIN), Ok(()));
    assert_eq!(assert_admin(members, W, USER_A), Err(IdentityError::PermissionDenied));
    assert_eq!(assert_admin(members, W, USER_B), Err(IdentityError::PermissionDenied));
    assert_eq!(assert_membership(members, W, USER_A), Ok(()));
    assert_eq!(assert_membership(members, W, USER_B), Err(IdentityError::NotFound));
    assert_eq!(WorkspacePermission::MemberRoleChange.as_key(), "member.role.change");
    assert_eq!(WorkspacePermission::MemberInvite.as_key(), "member.invite");
    assert_eq!(WorkspacePermission::MemberRemove.as_key(), "member.remove");
}

#[test]
fn members_are_listed_as_they_joined() {
    let mut pool = Directory::new();
    add_member(&mut pool.members, W, 3, MemberRole::Member, None, 30);
    add_member(&mut pool.members, W, 1, MemberRole::Admin, None, 10);
    add_member(&mut pool.members, OTHER_W, 9, MemberRole::Admin, None, 5);
    add_member(&mut pool.members, W, 2, MemberRole::Member, None, 20);
    add_member(&mut pool.members, W, 4, MemberRole::Member, None, 20);
    let listed: Vec<u128> = pool.members.list(W).iter().map(|m| m.user_id).collect();
    assert_eq!(listed, vec![1, 2, 4, 3]);
    assert!(pool.members.list(0x3000).is_empty());
}

#[test]
fn invitation_is_accepted_once() {
    let mut state = state_with_admin();
    let payload =
        InviteWorkspaceMemberRequest { email: "alice@example.com".to_string(), role: MemberRole::Member };
    let (response, mail) =
        invite_member_with(&mut state, &user(ADMIN), W, &payload, 1, "T", 100).unwrap();
    assert_eq!(response.invitation.id, 1);
    assert_eq!(response.invitation.email, "alice@example.com");
    assert_eq!(response.invitation.status, InvitationStatus::Pending);
    assert_eq!(response.invitation.token, "T");
    assert_eq!(response.invitation.created_at, 100);
    assert_eq!(response.invitation.expires_at, 100 + 7 * 24 * 3600 * 1_000_000);
    assert_eq!(response.invitation.invited_by_user_id, Some(ADMIN));
    assert_eq!(mail.accept_url, "https://kanban.example/workspace-invitations/T/accept");
    assert_eq!(mail.email, "alice@example.com");
    assert_eq!(mail.inviter_name.as_deref(), Some("user-10"));
    assert_eq!(mail.role, MemberRole::Member);
    assert_eq!(mail.workspace_id, W);

    let accepted = accept_invitation_at(&mut state, &user(USER_A), "T", 500).unwrap();
    assert_eq!((accepted.workspace_id, accepted.role), (W, MemberRole::Member));
    let rows = state.pool.members.entries();
    assert_eq!(rows.len(), 2);
    assert_eq!((rows[1].user_id, rows[1].role), (USER_A, MemberRole::Member));
    assert_eq!(rows[1].invited_by, Some(ADMIN));
    assert_eq!(rows[1].joined_at, 500);

    let e = accept_invitation_at(&mut state, &user(USER_B), "T", 501).unwrap_err();
    assert_eq!((e.status, e.message.as_str()), (400, "Invitation not found or already used"));
    assert_eq!(state.pool.members.entries().len(), 2);
    assert!(!is_member(&state.pool.members, W, USER_B));
    assert_eq!(state.pool.invitations.entries()[0].status, InvitationStatus::Accepted);
}

#[test]
fn overdue_invitation_is_marked_expired() {
    let mut state = state_with_admin();
    invite(&mut state, 1, "bob@example.com", "late", 0);
    let deadline = INVITATION_TTL_MICROS;
    let e = accept_invitation_at(&mut state, &user(USER_A), "late", deadline + 1).unwrap_err();
    assert_eq!((e.status, e.message.as_str()), (400, "Invitation has expired"));
    assert!(!is_member(&state.pool.members, W, USER_A));
    let listed = state.pool.list_invitations(W, ADMIN).unwrap();
    assert_eq!(listed.len(), 1);
    assert_eq!(listed[0].status, InvitationStatus::Expired);
    // An expired invitation stays expired.
    let e = accept_invitation_at(&mut state, &user(USER_A), "late", 1).unwrap_err();
    assert_eq!((e.status, e.message.as_str()), (400, "Invitation not found or already used"));
    assert_eq!(state.pool.invitations.entries()[0].status, InvitationStatus::Expired);
}

#[test]
fn invitation_is_good_up_to_its_deadline() {
    let mut state = state_with_admin();
    invite(&mut state, 1, "bob@example.com", "edge", 0);
    assert!(accept_invitation_at(&mut state, &user(USER_A), "edge", INVITATION_TTL_MICROS).is_ok());
    assert_eq!(deadline_after(0), Some(604_800_000_000));
    assert_eq!(deadline_after(i64::MAX), None);
    assert_eq!(deadline_after(i64::MAX - 604_800_000_000), Some(i64::MAX));
}

#[test]
fn member_cannot_accept_an_invitation_to_its_workspace() {
    let mut state = state_with_admin();
    invite(&mut state, 1, "admin@example.com", "again", 0);
    let e = accept_invitation_at(&mut state, &user(ADMIN), "again", 5).unwrap_err();
    assert_eq!((e.status, e.message.as_str()), (400, "You are already a member of this workspace"));
    assert_eq!(state.pool.invitations.entries()[0].status, InvitationStatus::Pending);
    assert_eq!(check_user_role(&state.pool.members, W, ADMIN), Some(MemberRole::Admin));
    // Somebody else can still use it.
    assert!(accept_invitation_at(&mut state, &user(USER_A), "again", 6).is_ok());
}

#[test]
fn inviting_needs_the_permission_and_the_top_tier() {
    let mut state = state_with_admin();
    add_member(&mut state.pool.members, W, USER_A, MemberRole::Member, None, 20);
    let payload =
        InviteWorkspaceMemberRequest { email: "carol@example.com".to_string(), role: MemberRole::Admin };
    let e = invite_member_with(&mut state, &user(USER_A), W, &payload, 1, "t1", 0).unwrap_err();
    assert_eq!((e.status, e.message.as_str()), (403, "Permission denied: member.invite required"));
    state.pool.members.set_permissions(W, USER_A, vec![WorkspacePermission::MemberInvite]);
    let e = invite_member_with(&mut state, &user(USER_A), W, &payload, 1, "t1", 0).unwrap_err();
    assert_eq!((e.status, e.message.as_str()), (403, "Admin access required"));
    assert!(state.pool.invitations.entries().is_empty());
    assert!(invite_member_with(&mut state, &user(ADMIN), W, &payload, 1, "t1", 0).is_ok());
    // A second pending invitation for the address, a token or an identifier in use.
    for (id, email, token) in
        [(2, "carol@example.com", "t2"), (3, "dave@example.com", "t1"), (1, "erin@example.com", "t3")]
    {
        let again = InviteWorkspaceMemberRequest { email: email.to_string(), role: MemberRole::Member };
        let e = invite_member_with(&mut state, &user(ADMIN), W, &again, id, token, 1).unwrap_err();
        assert_eq!(
            (e.status, e.message.as_str()),
            (400, "A pending invitation already exists for this email")
        );
    }
    assert_eq!(state.pool.invitations.entries().len(), 1);
    // Once the invitation is settled the address can be invited again.
    assert!(accept_invitation_at(&mut state, &user(USER_B), "t1", 2).is_ok());
    let again =
        InviteWorkspaceMemberRequest { email: "carol@example.com".to_string(), role: MemberRole::Member };
    assert!(invite_member_with(&mut state, &user(ADMIN), W, &again, 2, "t2", 3).is_ok());
}

#[test]
fn invitations_are_listed_newest_first_for_admins() {
    let mut state = state_with_admin();
    add_member(&mut state.pool.members, W, USER_A, MemberRole::Member, None, 20);
    invite(&mut state, 1, "a@example.com", "ta", 10);
    invite(&mut state, 2, "b@example.com", "tb", 30);
    invite(&mut state, 3, "c@example.com", "tc", 20);
    let listed: Vec<u128> =
        state.pool.list_invitations(W, ADMIN).unwrap().iter().map(|i| i.id).collect();
    assert_eq!(listed, vec![2, 3, 1]);
    assert_eq!(
        state.pool.list_invitations(W, USER_A).unwrap_err(),
        IdentityError::PermissionDenied
    );
    assert_eq!(state.pool.list_invitations(OTHER_W, ADMIN).unwrap_err(), IdentityError::PermissionDenied);
}

#[test]
fn invitation_is_shown_by_its_token() {
    let mut state = state_with_admin();
    invite(&mut state, 7, "a@example.com", "ta", 10);
    let shown = get_invitation(&state, "ta").unwrap();
    assert_eq!(shown.id, 7);
    assert_eq!(shown.workspace_id, W);
    assert_eq!(shown.role, MemberRole::Member);
    assert_eq!(shown.expires_at, 10 + INVITATION_TTL_MICROS);
    let e = get_invitation(&state, "tb").unwrap_err();
    assert_eq!((e.status, e.message.as_str()), (404, "Invitation not found"));
    assert_eq!(state.pool.get_invitation_by_token("tb").unwrap_err(), IdentityError::NotFound);
    let api = to_api_invitation(state.pool.get_invitation_by_token("ta").unwrap());
    assert_eq!(api.token, "ta");
    assert_eq!(api.email, "a@example.com");
}

#[test]
fn revoking_deletes_the_invitation() {
    let mut state = state_with_admin();
    add_member(&mut state.pool.members, W, USER_A, MemberRole::Member, None, 20);
    invite(&mut state, 7, "a@example.com", "ta", 10);
    let request = RevokeWorkspaceInvitationRequest { invitation_id: 7 };
    assert_eq!(
        refused(revoke_invitation(&mut state, &user(USER_A), W, request)),
        (403, "Admin access required".to_string())
    );
    let missing = RevokeWorkspaceInvitationRequest { invitation_id: 8 };
    assert_eq!(
        refused(revoke_invitation(&mut state, &user(ADMIN), W, missing)),
        (404, "Invitation not found".to_string())
    );
    assert_eq!(state.pool.revoke_invitation(OTHER_W, 7, ADMIN), Err(IdentityError::PermissionDenied));
    assert!(revoke_invitation(&mut state, &user(ADMIN), W, request).is_ok());
    assert!(state.pool.invitations.entries().is_empty());
    let e = accept_invitation_at(&mut state, &user(USER_B), "ta", 11).unwrap_err();
    assert_eq!((e.status, e.message.as_str()), (400, "Invitation not found or already used"));
}

#[test]
fn fresh_invitations_and_the_clock() {
    let mut state = state_with_admin();
    let payload =
        InviteWorkspaceMemberRequest { email: "z@example.com".to_string(), role: MemberRole::Member };
    let (response, mail) = invite_member(&mut state, &user(ADMIN), W, &payload).unwrap();
    let token = response.invitation.token.clone();
    // The token is a random identifier in hyphenated form.
    assert_eq!(token.len(), 36);
    assert_eq!(uuid::Uuid::parse_str(&token).unwrap().get_version_num(), 4);
    assert_eq!(uuid::Uuid::from_u128(response.invitation.id).get_version_num(), 4);
    assert!(response.invitation.created_at > 1_600_000_000_000_000);
    assert_eq!(response.invitation.expires_at - response.invitation.created_at, INVITATION_TTL_MICROS);
    assert_eq!(mail.accept_url, format!("https://kanban.example/workspace-invitations/{}/accept", token));
    let accepted = accept_invitation(&mut state, &user(USER_A), &token).unwrap();
    assert_eq!(accepted.role, MemberRole::Member);
    assert!(state.pool.members.entries()[1].joined_at >= response.invitation.created_at);
    let (second, _) = invite_member(&mut state, &user(ADMIN), W, &payload).unwrap();
    assert_ne!(second.invitation.token, token);
    assert_ne!(second.invitation.id, response.invitation.id);
}

#[test]
fn repository_offers_the_same_operations() {
    let mut pool = Directory::new();
    add_member(&mut pool.members, W, ADMIN, MemberRole::Admin, None, 10);
    let mut repo = WorkspaceInvitationRepository::new(pool);
    let created = repo
        .create_invitation(W, ADMIN, "a@example.com", MemberRole::Member, i64::MAX, "ta")
        .unwrap();
    assert_eq!(created.status, InvitationStatus::Pending);
    assert_eq!(
        repo.create_invitation(W, USER_A, "b@example.com", MemberRole::Member, 5, "tb").unwrap_err(),
        IdentityError::PermissionDenied
    );
    assert_eq!(repo.list_invitations(W, ADMIN).unwrap().len(), 1);
    assert_eq!(repo.get_invitation_by_token("ta").unwrap().id, created.id);
    assert_eq!(repo.accept_invitation("ta", USER_A), Ok((W, MemberRole::Member)));
    assert_eq!(
        repo.accept_invitation("ta", USER_A),
        Err(IdentityError::InvitationError(InvitationFault::Invalid))
    );
    assert_eq!(repo.revoke_invitation(W, created.id, ADMIN), Ok(()));
    assert_eq!(repo.revoke_invitation(W, created.id, ADMIN), Err(IdentityError::NotFound));
    assert_eq!(repo.pool.members.entries().len(), 2);
}

#[test]
fn refusals_carry_status_and_message() {
    assert_eq!(Refusal::Database.respond().status, 500);
    assert_eq!(Refusal::Database.respond().message, "Database error");
    assert_eq!(Refusal::NotAMember.status_code(), 403);
    assert_eq!(Refusal::Invitation(InvitationFault::Expired).text(), "Invitation has expired");
    let e = membership_error(IdentityError::Database, Refusal::AdminRequired);
    assert_eq!((e.status, e.message.as_str()), (500, "Database error"));
    let e = membership_error(IdentityError::NotFound, Refusal::AdminRequired);
    assert_eq!((e.status, e.message.as_str()), (403, "Admin access required"));
    let e = membership_error(
        IdentityError::InvitationError(InvitationFault::PendingExists),
        Refusal::AdminRequired,
    );
    assert_eq!(e.status, 400);
    let state = state_with_admin();
    assert!(ensure_member_access(&state.pool, W, ADMIN).is_ok());
    let e = ensure_member_access(&state.pool, W, USER_A).unwrap_err();
    assert_eq!((e.status, e.message.as_str()), (403, "Not a member of workspace"));
}
