use workspace_authz::api::workspaces::{MemberRole, WorkspacePermission};
use workspace_authz::authorization::{AuthContext, Permission, Role};
use workspace_authz::evaluator::{
    assert_permission, has_all, has_any, AuthorizationEvaluator, PermissionDenied, TeamPrincipal,
    WorkspacePrincipal,
};
use workspace_authz::models::database::Database;
use workspace_authz::models::permission::Permission as CatalogPermission;
use workspace_authz::models::role::system_roles::{MEMBER, OWNER};
use workspace_authz::models::role::Role as StoredRole;
use workspace_authz::remote::workspace_members::{add_member, MemberTable};
use workspace_authz::services::workspace_team::WorkspaceTeamService;
use workspace_authz::models::workspace_team::CreateWorkspaceTeam;

#[test]
fn fixed_roles_answer_through_the_common_interface() {
    let viewer = AuthContext::new(Some(1), Role::Viewer);
    assert!(AuthorizationEvaluator::has_permission(&viewer, Permission::TaskRead));
    assert!(has_any(&viewer, &[Permission::TaskCreate, Permission::TaskRead]));
    assert!(!has_any(&viewer, &[Permission::TaskCreate, Permission::TaskDelete]));
    assert!(!has_any::<Permission, _>(&viewer, &[]));
    assert!(has_all(&viewer, &[Permission::TaskRead, Permission::ProjectRead]));
    assert!(!has_all(&viewer, &[Permission::TaskRead, Permission::TaskCreate]));
    assert_eq!(assert_permission(&viewer, Permission::TaskRead), Ok(()));
    assert_eq!(assert_permission(&viewer, Permission::AdminAccess), Err(PermissionDenied));
}

#[test]
fn stored_grants_answer_through_the_common_interface() {
    let mut pool = Database::new();
    StoredRole::seed(&mut pool, OWNER, "Owner", 1).unwrap();
    StoredRole::seed(&mut pool, MEMBER, "Member", 1).unwrap();
    CatalogPermission::create(&mut pool, 100, "task.view", None, 1).unwrap();
    CatalogPermission::create(&mut pool, 101, "task.edit", None, 1).unwrap();
    StoredRole::grant(&mut pool, OWNER, 100).unwrap();
    StoredRole::grant(&mut pool, OWNER, 101).unwrap();
    StoredRole::grant(&mut pool, MEMBER, 100).unwrap();
    let service = WorkspaceTeamService::new();
    let data = CreateWorkspaceTeam { name: "Crew".to_string(), description: None };
    service.create_team_with(&mut pool, &data, "u1", 7, 1, 10).unwrap();
    service.add_member_with(&mut pool, 7, "u2", MEMBER, None, 2, 20).unwrap();
    let owner = TeamPrincipal { pool: &pool, team_id: 7, user_id: "u1" };
    let member = TeamPrincipal { pool: &pool, team_id: 7, user_id: "u2" };
    let stranger = TeamPrincipal { pool: &pool, team_id: 7, user_id: "u3" };
    assert!(has_all(&owner, &["task.view", "task.edit"]));
    assert!(has_any(&member, &["task.edit", "task.view"]));
    assert!(!has_all(&member, &["task.view", "task.edit"]));
    assert!(!has_any(&stranger, &["task.view"]));
    assert_eq!(assert_permission(&member, "task.edit"), Err(PermissionDenied));
    assert_eq!(assert_permission(&owner, "task.edit"), Ok(()));
}

#[test]
fn workspace_rows_answer_through_the_common_interface() {
    let mut members = MemberTable::new();
    add_member(&mut members, 1, 10, MemberRole::Admin, None, 1);
    add_member(&mut members, 1, 11, MemberRole::Member, None, 2);
    members.set_permissions(1, 11, vec![WorkspacePermission::MemberInvite]);
    let admin = WorkspacePrincipal { members: &members, workspace_id: 1, user_id: 10 };
    let member = WorkspacePrincipal { members: &members, workspace_id: 1, user_id: 11 };
    let all = [
        WorkspacePermission::MemberInvite,
        WorkspacePermission::MemberRemove,
        WorkspacePermission::MemberRoleChange,
    ];
    assert!(has_all(&admin, &all));
    assert!(has_any(&member, &all));
    assert!(!has_all(&member, &all));
    assert_eq!(assert_permission(&member, WorkspacePermission::MemberRemove), Err(PermissionDenied));
}
