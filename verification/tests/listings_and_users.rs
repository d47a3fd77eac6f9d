use workspace_authz::api::workspaces::{InvitationStatus, InviteWorkspaceMemberRequest, MemberRole};
use workspace_authz::models::database::{Database, StoreError};
use workspace_authz::models::role::system_roles::{MEMBER, OWNER};
use workspace_authz::models::role::Role;
use workspace_authz::models::workspace_member::WorkspaceMember as TeamMember;
use workspace_authz::models::workspace_team::WorkspaceTeam;
use workspace_authz::remote::directory::Directory;
use workspace_authz::remote::routes::workspace_members::{
    invite_member_with, list_invitations, list_members, AppState, RequestUser,
};
use workspace_authz::remote::users::{fetch_user, UpsertUser, UserRepository};
use workspace_authz::remote::workspace_invitations::WorkspaceInvitation;
use workspace_authz::remote::workspace_members::{add_member, IdentityError};
use workspace_authz::services::workspace_team::{WorkspaceTeamService, WorkspaceTeamServiceError};

const W: u128 = 0x1000;
const ADMIN: u128 = 0xa;
const USER_A: u128 = 0xb;
const USER_B: u128 = 0xc;

fn announce(directory: &mut Directory, id: u128, email: &str, username: Option<&str>) {
    directory
        .users
        .upsert(UpsertUser { id, email, first_name: Some("F"), last_name: None, username }, 1);
}

fn state() -> AppState {
    let mut pool = Directory::new();
    add_member(&mut pool.members, W, USER_A, MemberRole::Member, Some(ADMIN), 30);
    add_member(&mut pool.members, W, ADMIN, MemberRole::Admin, None, 10);
    add_member(&mut pool.members, W, USER_B, MemberRole::Member, None, 20);
    announce(&mut pool, ADMIN, "admin@example.com", Some("root"));
    announce(&mut pool, USER_A, "a@example.com", None);
    AppState { pool, server_public_base_url: "https://kanban.example".to_string() }
}

fn user(id: u128) -> RequestUser {
    RequestUser { id, username: None }
}

fn invitation(id: u128, token: &str, email: &str, status: InvitationStatus) -> WorkspaceInvitation {
    WorkspaceInvitation {
        id,
        workspace_id: W,
        invited_by_user_id: Some(ADMIN),
        email: email.to_string(),
        role: MemberRole::Member,
        status,
        token: token.to_string(),
        expires_at: 100,
        created_at: 1,
        updated_at: 1,
    }
}

#[test]
fn members_are_shown_with_their_profiles() {
    let mut state = state();
    state.pool.users.set_avatar(ADMIN, Some("https://img/admin.png"));
    let shown = list_members(&state, &user(USER_B), W).unwrap().members;
    // The member that is no known user is left out.
    let ids: Vec<u128> = shown.iter().map(|m| m.user_id).collect();
    assert_eq!(ids, vec![ADMIN, USER_A]);
    assert_eq!(shown[0].role, MemberRole::Admin);
    assert_eq!(shown[0].email.as_deref(), Some("admin@example.com"));
    assert_eq!(shown[0].username.as_deref(), Some("root"));
    assert_eq!(shown[0].first_name.as_deref(), Some("F"));
    assert_eq!(shown[0].last_name, None);
    assert_eq!(shown[0].avatar_url.as_deref(), Some("https://img/admin.png"));
    assert_eq!(shown[0].joined_at, 10);
    assert!(shown[0].permissions.is_empty());
    assert_eq!(shown[1].avatar_url, None);
    let e = list_members(&state, &user(0xdd), W).unwrap_err();
    assert_eq!((e.status, e.message.as_str()), (403, "Not a member of workspace"));
    let e = list_members(&state, &user(ADMIN), 0x2000).unwrap_err();
    assert_eq!(e.status, 403);
}

#[test]
fn invitations_are_shown_to_admins() {
    let mut state = state();
    for (id, email, token, now) in [(1, "x@example.com", "tx", 5), (2, "y@example.com", "ty", 9)] {
        let payload =
            InviteWorkspaceMemberRequest { email: email.to_string(), role: MemberRole::Member };
        invite_member_with(&mut state, &user(ADMIN), W, &payload, id, token, now).unwrap();
    }
    let shown = list_invitations(&state, &user(ADMIN), W).unwrap().invitations;
    let tokens: Vec<&str> = shown.iter().map(|i| i.token.as_str()).collect();
    assert_eq!(tokens, vec!["ty", "tx"]);
    assert_eq!(shown[0].email, "y@example.com");
    assert_eq!(shown[0].status, InvitationStatus::Pending);
    let e = list_invitations(&state, &user(USER_A), W).unwrap_err();
    assert_eq!((e.status, e.message.as_str()), (403, "Admin access required"));
}

#[test]
fn overdue_invitations_are_swept() {
    let mut directory = Directory::new();
    assert!(directory.invitations.restore(invitation(1, "t1", "a@x", InvitationStatus::Pending)));
    assert!(directory.invitations.restore(invitation(2, "t2", "b@x", InvitationStatus::Accepted)));
    let mut fresh = invitation(3, "t3", "c@x", InvitationStatus::Pending);
    fresh.expires_at = 500;
    assert!(directory.invitations.restore(fresh));
    // The deadline itself is still in time.
    assert_eq!(directory.expire_overdue(100), 0);
    assert_eq!(directory.expire_overdue(101), 1);
    let states: Vec<InvitationStatus> =
        directory.invitations.entries().iter().map(|i| i.status).collect();
    assert_eq!(
        states,
        vec![InvitationStatus::Expired, InvitationStatus::Accepted, InvitationStatus::Pending]
    );
    // A second sweep finds nothing to do.
    assert_eq!(directory.expire_overdue(101), 0);
    assert_eq!(directory.expire_overdue(501), 1);
    assert_eq!(directory.expire_overdue(i64::MAX), 0);
}

#[test]
fn invitations_on_record_are_entered_under_constraints() {
    let mut directory = Directory::new();
    assert!(directory.invitations.restore(invitation(1, "t1", "a@x", InvitationStatus::Pending)));
    assert!(!directory.invitations.restore(invitation(1, "t9", "z@x", InvitationStatus::Expired)));
    assert!(!directory.invitations.restore(invitation(9, "t1", "z@x", InvitationStatus::Expired)));
    assert!(!directory.invitations.restore(invitation(9, "t9", "a@x", InvitationStatus::Pending)));
    // A settled invitation stands beside a pending one for the same address.
    assert!(directory.invitations.restore(invitation(2, "t2", "a@x", InvitationStatus::Revoked)));
    assert!(directory.invitations.restore(invitation(3, "t3", "a@x", InvitationStatus::Accepted)));
    assert_eq!(directory.invitations.entries().len(), 3);
    assert_eq!(directory.invitations.list(W).len(), 3);
}

#[test]
fn users_are_kept_by_identifier() {
    let mut repo = UserRepository::new(Directory::new());
    let first = repo
        .upsert_user(
            UpsertUser {
                id: 7,
                email: "a@example.com",
                first_name: Some("Ann"),
                last_name: Some("Lee"),
                username: None,
            },
            100,
        )
        .unwrap();
    assert_eq!((first.id, first.created_at, first.updated_at), (7, 100, 100));
    assert_eq!(first.avatar_url, None);
    let with_avatar = repo.update_avatar_url(7, Some("https://img/a.png")).unwrap();
    assert_eq!(with_avatar.avatar_url.as_deref(), Some("https://img/a.png"));
    assert_eq!(with_avatar.first_name.as_deref(), Some("Ann"));
    // What is announced overwrites what was on record, names that are
    // missing too; the avatar and the time of creation stay.
    let second = repo
        .upsert_user(
            UpsertUser {
                id: 7,
                email: "ann@example.com",
                first_name: None,
                last_name: Some("Lee"),
                username: Some("ann"),
            },
            200,
        )
        .unwrap();
    assert_eq!(second.email, "ann@example.com");
    assert_eq!(second.first_name, None);
    assert_eq!(second.username.as_deref(), Some("ann"));
    assert_eq!((second.created_at, second.updated_at), (100, 200));
    assert_eq!(second.avatar_url, None);
    assert_eq!(repo.pool.users.entries().len(), 1);
    assert_eq!(repo.fetch_user(7).unwrap().avatar_url, None);
    assert_eq!(
        repo.fetch_user_with_avatar(7).unwrap().avatar_url.as_deref(),
        Some("https://img/a.png")
    );
    assert_eq!(repo.fetch_user(8).unwrap_err(), IdentityError::NotFound);
    assert_eq!(repo.fetch_user_with_avatar(8).unwrap_err(), IdentityError::NotFound);
    assert_eq!(repo.update_avatar_url(8, None).unwrap_err(), IdentityError::NotFound);
    assert_eq!(repo.update_avatar_url(7, None).unwrap().avatar_url, None);
    let data = fetch_user(&repo.pool, 7).unwrap();
    assert_eq!((data.user_id, data.username.as_deref()), (7, Some("ann")));
    assert_eq!(data.avatar_url, None);
    assert!(fetch_user(&repo.pool, 8).is_none());
}

#[test]
fn rows_on_record_are_entered_under_constraints() {
    let mut pool = Database::new();
    let role = |id: u128, name: &str, is_system: bool| Role {
        id,
        name: name.to_string(),
        description: Some("as stored".to_string()),
        is_system,
        created_at: 3,
        updated_at: 4,
    };
    assert_eq!(Role::restore(&mut pool, role(OWNER, "Owner", true)), Ok(()));
    assert_eq!(Role::restore(&mut pool, role(MEMBER, "Member", true)), Ok(()));
    assert_eq!(Role::restore(&mut pool, role(OWNER, "Other", false)), Err(StoreError::UniqueViolation));
    assert_eq!(Role::restore(&mut pool, role(9, "Owner", false)), Err(StoreError::UniqueViolation));
    let stored = Role::find_by_id(&pool, OWNER).unwrap();
    assert_eq!((stored.description.as_deref(), stored.updated_at), (Some("as stored"), 4));
    let team = |id: u128| WorkspaceTeam {
        id,
        name: "Crew".to_string(),
        description: None,
        created_at: 5,
        updated_at: 6,
    };
    assert_eq!(WorkspaceTeam::restore(&mut pool, team(1)), Ok(()));
    assert_eq!(WorkspaceTeam::restore(&mut pool, team(1)), Err(StoreError::UniqueViolation));
    let member = |id: u128, team_id: u128, user_id: &str, role_id: u128| TeamMember {
        id,
        workspace_team_id: team_id,
        user_id: user_id.to_string(),
        role_id,
        invited_by: None,
        joined_at: 7,
        created_at: 8,
        updated_at: 9,
    };
    assert_eq!(TeamMember::restore(&mut pool, member(1, 1, "u1", OWNER)), Ok(()));
    assert_eq!(TeamMember::restore(&mut pool, member(1, 1, "u2", OWNER)), Err(StoreError::UniqueViolation));
    assert_eq!(TeamMember::restore(&mut pool, member(2, 1, "u1", MEMBER)), Err(StoreError::UniqueViolation));
    assert_eq!(TeamMember::restore(&mut pool, member(2, 2, "u1", OWNER)), Err(StoreError::ForeignKeyViolation));
    assert_eq!(TeamMember::restore(&mut pool, member(2, 1, "u2", 99)), Err(StoreError::ForeignKeyViolation));
    let stored = TeamMember::find_by_id(&pool, 1).unwrap();
    assert_eq!((stored.joined_at, stored.created_at, stored.updated_at), (7, 8, 9));
    // The engine decides on rows that were entered as on rows that it wrote.
    let service = WorkspaceTeamService::new();
    assert!(matches!(
        service.remove_member(&mut pool, 1, "u1"),
        Err(WorkspaceTeamServiceError::LastOwner)
    ));
}

#[test]
fn service_failures_are_surfaced_by_kind() {
    let cases = [
        (WorkspaceTeamServiceError::TeamNotFound, 404, "Workspace team not found"),
        (WorkspaceTeamServiceError::MemberNotFound, 404, "Member not found"),
        (WorkspaceTeamServiceError::RoleNotFound, 404, "Role not found"),
        (
            WorkspaceTeamServiceError::AlreadyMember,
            409,
            "User is already a member of this workspace team",
        ),
        (WorkspaceTeamServiceError::LastOwner, 409, "Cannot remove the last owner"),
        (
            WorkspaceTeamServiceError::LastOwnerRoleChange,
            409,
            "Cannot change role of the last owner",
        ),
        (
            WorkspaceTeamServiceError::PermissionDenied("task.edit".to_string()),
            403,
            "User does not have permission: task.edit",
        ),
        (WorkspaceTeamServiceError::SystemRoleDelete, 400, "Cannot delete system role"),
        (WorkspaceTeamServiceError::Database(StoreError::Unavailable), 500, "Internal error"),
        (WorkspaceTeamServiceError::Database(StoreError::RowNotFound), 500, "Internal error"),
    ];
    for (error, status, message) in cases {
        assert_eq!(error.status_code(), status);
        assert_eq!(error.describe(), message);
    }
}
