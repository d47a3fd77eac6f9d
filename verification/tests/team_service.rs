use workspace_authz::models::database::{Database, StoreError};
use workspace_authz::models::permission::{keys, Permission};
use workspace_authz::models::role::system_roles::{ADMIN, MEMBER, OWNER, VIEWER};
use workspace_authz::models::role::{CreateRole, Role, UpdateRole};
use workspace_authz::models::workspace_member::{CreateWorkspaceMember, WorkspaceMember};
use workspace_authz::models::workspace_team::{
    CreateWorkspaceTeam, UpdateWorkspaceTeam, WorkspaceTeam,
};
use workspace_authz::services::workspace_team::{WorkspaceTeamService, WorkspaceTeamServiceError};

const W: u128 = 0x77;

fn seeded() -> Database {
    let mut pool = Database::new();
    for (id, name) in [(OWNER, "Owner"), (ADMIN, "Admin"), (MEMBER, "Member"), (VIEWER, "Viewer")] {
        Role::seed(&mut pool, id, name, 1).unwrap();
    }
    let all = [
        keys::WORKSPACE_VIEW,
        keys::WORKSPACE_EDIT,
        keys::WORKSPACE_DELETE,
        keys::MEMBER_VIEW,
        keys::MEMBER_INVITE,
        keys::MEMBER_REMOVE,
        keys::TASK_VIEW,
        keys::TASK_CREATE,
    ];
    for (n, key) in all.iter().enumerate() {
        let id = 100 + n as u128;
        Permission::create(&mut pool, id, key, None, 1).unwrap();
        Role::grant(&mut pool, OWNER, id).unwrap();
        if key.ends_with(".view") {
            Role::grant(&mut pool, VIEWER, id).unwrap();
            Role::grant(&mut pool, MEMBER, id).unwrap();
        }
    }
    Role::grant(&mut pool, MEMBER, 107).unwrap();
    pool
}

fn with_team() -> (WorkspaceTeamService, Database) {
    let service = WorkspaceTeamService::new();
    let mut pool = seeded();
    let data = CreateWorkspaceTeam { name: "Crew".to_string(), description: None };
    service.create_team_with(&mut pool, &data, "u1", W, 1, 10).unwrap();
    (service, pool)
}

fn kind(e: WorkspaceTeamServiceError) -> String {
    format!("{:?}", e)
}

#[test]
fn last_owner_stays_until_another_owner_exists() {
    let (service, mut pool) = with_team();
    assert_eq!(kind(service.remove_member(&mut pool, W, "u1").unwrap_err()), "LastOwner");
    service.add_member_with(&mut pool, W, "u2", MEMBER, Some("u1"), 2, 20).unwrap();
    assert_eq!(kind(service.remove_member(&mut pool, W, "u1").unwrap_err()), "LastOwner");
    assert_eq!(
        kind(service.update_member_role_at(&mut pool, W, "u1", MEMBER, 25).unwrap_err()),
        "LastOwnerRoleChange"
    );
    // Confirming the owner in its role changes nothing that matters.
    let kept = service.update_member_role_at(&mut pool, W, "u1", OWNER, 30).unwrap();
    assert_eq!(kept.role_id, OWNER);
    assert_eq!(kept.updated_at, 30);
    assert_eq!(WorkspaceMember::count_by_role(&pool, W, OWNER), 1);
    let promoted = service.update_member_role_at(&mut pool, W, "u2", OWNER, 40).unwrap();
    assert_eq!((promoted.user_id.as_str(), promoted.role_id), ("u2", OWNER));
    assert_eq!(WorkspaceMember::count_by_role(&pool, W, OWNER), 2);
    assert!(service.remove_member(&mut pool, W, "u1").is_ok());
    assert!(WorkspaceMember::find_by_team_and_user(&pool, W, "u1").is_none());
    assert_eq!(WorkspaceMember::count_by_role(&pool, W, OWNER), 1);
    assert_eq!(kind(service.remove_member(&mut pool, W, "u2").unwrap_err()), "LastOwner");
}

#[test]
fn second_add_of_a_pair_fails() {
    let (service, mut pool) = with_team();
    let first = service.add_member_with(&mut pool, W, "u2", MEMBER, Some("u1"), 2, 20).unwrap();
    assert_eq!(first.id, 2);
    assert_eq!(first.invited_by.as_deref(), Some("u1"));
    assert_eq!((first.joined_at, first.created_at, first.updated_at), (20, 20, 20));
    for (role, id) in [(MEMBER, 3), (VIEWER, 4), (OWNER, 2)] {
        assert_eq!(
            kind(service.add_member_with(&mut pool, W, "u2", role, None, id, 30).unwrap_err()),
            "AlreadyMember"
        );
    }
    assert_eq!(WorkspaceMember::find_all_for_team(&pool, W).len(), 2);
    // The creator is a member from the start.
    assert_eq!(
        kind(service.add_member_with(&mut pool, W, "u1", VIEWER, None, 9, 30).unwrap_err()),
        "AlreadyMember"
    );
}

#[test]
fn add_member_is_checked_in_order() {
    let (service, mut pool) = with_team();
    assert_eq!(
        kind(service.add_member_with(&mut pool, 0x78, "u2", 999, None, 2, 20).unwrap_err()),
        "TeamNotFound"
    );
    assert_eq!(
        kind(service.add_member_with(&mut pool, W, "u1", 999, None, 2, 20).unwrap_err()),
        "RoleNotFound"
    );
    assert_eq!(
        kind(service.add_member_with(&mut pool, W, "u2", MEMBER, None, 1, 20).unwrap_err()),
        "Database(UniqueViolation)"
    );
    assert_eq!(
        kind(service.update_member_role_at(&mut pool, W, "nobody", MEMBER, 1).unwrap_err()),
        "MemberNotFound"
    );
    assert_eq!(
        kind(service.update_member_role_at(&mut pool, W, "u1", 999, 1).unwrap_err()),
        "RoleNotFound"
    );
    assert_eq!(kind(service.remove_member(&mut pool, W, "nobody").unwrap_err()), "MemberNotFound");
    assert_eq!(kind(service.remove_member(&mut pool, 0x78, "u1").unwrap_err()), "MemberNotFound");
}

#[test]
fn team_is_created_with_its_owner_or_not_at_all() {
    let service = WorkspaceTeamService::new();
    let data = CreateWorkspaceTeam { name: "Crew".to_string(), description: Some("all".to_string()) };
    // Without the owner role nothing is written.
    let mut empty = Database::new();
    assert_eq!(
        kind(service.create_team_with(&mut empty, &data, "u1", W, 1, 10).unwrap_err()),
        "Database(ForeignKeyViolation)"
    );
    assert!(WorkspaceTeam::find_all(&empty).is_empty());
    let (_, mut pool) = with_team();
    assert_eq!(
        kind(service.create_team_with(&mut pool, &data, "u9", W, 5, 10).unwrap_err()),
        "Database(UniqueViolation)"
    );
    assert_eq!(
        kind(service.create_team_with(&mut pool, &data, "u9", 0x78, 1, 10).unwrap_err()),
        "Database(UniqueViolation)"
    );
    assert_eq!(WorkspaceTeam::find_all(&pool).len(), 1);
    let team = service.create_team_with(&mut pool, &data, "u9", 0x78, 5, 11).unwrap();
    assert_eq!(team.description.as_deref(), Some("all"));
    let owner = WorkspaceMember::find_by_team_and_user(&pool, 0x78, "u9").unwrap();
    assert_eq!((owner.id, owner.role_id, owner.joined_at), (5, OWNER, 11));
    assert_eq!(owner.invited_by, None);
    // Teams are listed newest first.
    let ids: Vec<u128> = service.list_teams(&pool).iter().map(|t| t.id).collect();
    assert_eq!(ids, vec![0x78, W]);
    let of_u9: Vec<u128> = service.find_teams_for_user(&pool, "u9").iter().map(|t| t.id).collect();
    assert_eq!(of_u9, vec![0x78]);
}

#[test]
fn fresh_identifiers_and_the_clock_in_the_service() {
    let service = WorkspaceTeamService::new();
    let mut pool = seeded();
    let data = CreateWorkspaceTeam { name: "Crew".to_string(), description: None };
    let team = service.create_team(&mut pool, &data, "u1").unwrap();
    assert_eq!(uuid::Uuid::from_u128(team.id).get_version_num(), 4);
    assert_eq!(uuid::Uuid::from_u128(team.id).get_variant(), uuid::Variant::RFC4122);
    assert!(team.created_at > 1_600_000_000_000_000);
    let member = service.add_member(&mut pool, team.id, "u2", MEMBER, None).unwrap();
    assert_ne!(member.id, team.id);
    assert!(member.joined_at >= team.created_at);
    let changed = service.update_member_role(&mut pool, team.id, "u2", OWNER).unwrap();
    assert!(changed.updated_at >= member.updated_at);
    assert_eq!(changed.joined_at, member.joined_at);
}

#[test]
fn teams_are_updated_in_part_and_deleted_with_their_members() {
    let (service, mut pool) = with_team();
    service.add_member_with(&mut pool, W, "u2", MEMBER, None, 2, 20).unwrap();
    let rename = UpdateWorkspaceTeam { name: Some("Band".to_string()), description: None };
    let team = service.update_team(&mut pool, W, &rename, 50).unwrap();
    assert_eq!((team.name.as_str(), team.description.clone(), team.updated_at), ("Band", None, 50));
    let describe = UpdateWorkspaceTeam { name: None, description: Some("loud".to_string()) };
    let team = service.update_team(&mut pool, W, &describe, 60).unwrap();
    assert_eq!((team.name.as_str(), team.description.as_deref()), ("Band", Some("loud")));
    assert_eq!(team.created_at, 10);
    assert_eq!(kind(service.update_team(&mut pool, 0x78, &rename, 1).unwrap_err()), "TeamNotFound");
    assert_eq!(kind(service.get_team(&pool, 0x78).unwrap_err()), "TeamNotFound");
    assert_eq!(service.get_team(&pool, W).unwrap().name, "Band");
    assert_eq!(kind(service.delete_team(&mut pool, 0x78).unwrap_err()), "TeamNotFound");
    assert!(service.delete_team(&mut pool, W).is_ok());
    assert!(WorkspaceMember::find_by_id(&pool, 1).is_none());
    assert!(WorkspaceMember::find_by_id(&pool, 2).is_none());
    assert_eq!(kind(service.list_members(&pool, W).unwrap_err()), "TeamNotFound");
}

#[test]
fn members_are_listed_with_their_roles() {
    let (service, mut pool) = with_team();
    service.add_member_with(&mut pool, W, "u3", VIEWER, None, 3, 30).unwrap();
    service.add_member_with(&mut pool, W, "u2", MEMBER, None, 2, 20).unwrap();
    let shown: Vec<(String, String)> = service
        .list_members(&pool, W)
        .unwrap()
        .into_iter()
        .map(|m| (m.member.user_id, m.role_name))
        .collect();
    assert_eq!(
        shown,
        vec![
            ("u1".to_string(), "Owner".to_string()),
            ("u2".to_string(), "Member".to_string()),
            ("u3".to_string(), "Viewer".to_string()),
        ]
    );
    assert_eq!(service.get_member_role(&pool, W, "u2").unwrap().name, "Member");
    assert!(service.get_member_role(&pool, W, "u9").is_none());
}

#[test]
fn permissions_come_from_the_role() {
    let (service, mut pool) = with_team();
    service.add_member_with(&mut pool, W, "u2", MEMBER, None, 2, 20).unwrap();
    assert!(service.has_permission(&pool, W, "u1", keys::MEMBER_REMOVE));
    assert!(!service.has_permission(&pool, W, "u2", keys::MEMBER_REMOVE));
    assert!(service.has_permission(&pool, W, "u2", keys::TASK_CREATE));
    assert!(!service.has_permission(&pool, W, "u9", keys::TASK_VIEW));
    assert!(!service.has_permission(&pool, W, "u1", "no.such.key"));
    assert_eq!(
        service.get_user_permissions(&pool, W, "u2"),
        vec!["member.view", "task.create", "task.view", "workspace.view"]
    );
    assert!(service.get_user_permissions(&pool, W, "u9").is_empty());
    assert!(service.require_permission(&pool, W, "u1", keys::WORKSPACE_DELETE).is_ok());
    assert_eq!(
        kind(service.require_permission(&pool, W, "u2", keys::WORKSPACE_DELETE).unwrap_err()),
        "PermissionDenied(\"workspace.delete\")"
    );
    assert_eq!(
        service.get_role_permissions(&pool, VIEWER).unwrap(),
        vec!["member.view", "task.view", "workspace.view"]
    );
    assert_eq!(service.get_role_permissions(&pool, ADMIN).unwrap(), Vec::<String>::new());
    assert_eq!(kind(service.get_role_permissions(&pool, 999).unwrap_err()), "RoleNotFound");
    // The owner holds what every other role holds.
    for role in [ADMIN, MEMBER, VIEWER] {
        for key in Role::get_permissions(&pool, role) {
            assert!(Role::has_permission(&pool, OWNER, &key));
        }
    }
}

#[test]
fn catalog_is_listed_by_key() {
    let pool = seeded();
    let service = WorkspaceTeamService::new();
    let all: Vec<&str> = service.list_permissions(&pool).iter().map(|p| p.key.as_str()).collect();
    assert_eq!(
        all,
        vec![
            "member.invite",
            "member.remove",
            "member.view",
            "task.create",
            "task.view",
            "workspace.delete",
            "workspace.edit",
            "workspace.view",
        ]
    );
    let workspace: Vec<&str> = service
        .list_permissions_by_category(&pool, "workspace.")
        .iter()
        .map(|p| p.key.as_str())
        .collect();
    assert_eq!(workspace, vec!["workspace.delete", "workspace.edit", "workspace.view"]);
    assert!(service.list_permissions_by_category(&pool, "Workspace.").is_empty());
    assert_eq!(service.list_permissions_by_category(&pool, "").len(), 8);
    assert_eq!(Permission::find_by_key(&pool, "task.view").unwrap().id, 106);
    assert!(Permission::find_by_key(&pool, "task").is_none());
    assert_eq!(Permission::find_by_id(&pool, 100).unwrap().key, "workspace.view");
    assert!(Permission::find_by_id(&pool, 99).is_none());
}

#[test]
fn catalog_refuses_what_is_taken() {
    let mut pool = seeded();
    assert_eq!(Permission::create(&mut pool, 100, "new.key", None, 2), Err(StoreError::UniqueViolation));
    assert_eq!(Permission::create(&mut pool, 500, "task.view", None, 2), Err(StoreError::UniqueViolation));
    assert_eq!(Role::grant(&mut pool, 999, 100), Err(StoreError::ForeignKeyViolation));
    assert_eq!(Role::grant(&mut pool, OWNER, 999), Err(StoreError::ForeignKeyViolation));
    // Granting twice is granting once.
    assert_eq!(Role::grant(&mut pool, VIEWER, 100), Ok(()));
    assert_eq!(Role::get_permissions(&pool, VIEWER).len(), 3);
}

#[test]
fn roles_are_listed_system_first_then_by_name() {
    let mut pool = seeded();
    let service = WorkspaceTeamService::new();
    for (id, name) in [(50, "zeta"), (51, "Auditor"), (52, "alpha")] {
        let data = CreateRole { name: name.to_string(), description: None };
        let role = Role::create(&mut pool, &data, id, 5).unwrap();
        assert!(!role.is_system);
    }
    let names: Vec<&str> = service.list_roles(&pool).iter().map(|r| r.name.as_str()).collect();
    assert_eq!(names, vec!["Admin", "Member", "Owner", "Viewer", "Auditor", "alpha", "zeta"]);
    assert_eq!(Role::find_by_name(&pool, "alpha").unwrap().id, 52);
    assert!(Role::find_by_name(&pool, "Alpha").is_none());
    assert_eq!(service.get_role(&pool, OWNER).unwrap().name, "Owner");
    assert_eq!(kind(service.get_role(&pool, 999).unwrap_err()), "RoleNotFound");
    let taken = CreateRole { name: "zeta".to_string(), description: None };
    assert_eq!(Role::create(&mut pool, &taken, 60, 5).unwrap_err(), StoreError::UniqueViolation);
    let fresh = CreateRole { name: "fresh".to_string(), description: None };
    assert_eq!(Role::create(&mut pool, &fresh, 50, 5).unwrap_err(), StoreError::UniqueViolation);
}

#[test]
fn roles_are_updated_in_part() {
    let mut pool = seeded();
    let data = CreateRole { name: "guest".to_string(), description: Some("short stay".to_string()) };
    Role::create(&mut pool, &data, 50, 5).unwrap();
    let rename = UpdateRole { name: Some("visitor".to_string()), description: None };
    let role = Role::update(&mut pool, 50, &rename, 9).unwrap();
    assert_eq!(role.name, "visitor");
    assert_eq!(role.description.as_deref(), Some("short stay"));
    assert_eq!((role.created_at, role.updated_at), (5, 9));
    let describe = UpdateRole { name: None, description: Some("long stay".to_string()) };
    let role = Role::update(&mut pool, 50, &describe, 10).unwrap();
    assert_eq!((role.name.as_str(), role.description.as_deref()), ("visitor", Some("long stay")));
    // A role may be given the name that it has.
    let same = UpdateRole { name: Some("visitor".to_string()), description: None };
    assert!(Role::update(&mut pool, 50, &same, 11).is_ok());
    let clash = UpdateRole { name: Some("Owner".to_string()), description: None };
    assert_eq!(kind(Role::update(&mut pool, 50, &clash, 12).unwrap_err()), "Database(UniqueViolation)");
    assert_eq!(kind(Role::update(&mut pool, 999, &rename, 12).unwrap_err()), "Database(RowNotFound)");
    assert_eq!(kind(Role::update(&mut pool, OWNER, &rename, 12).unwrap_err()), "SystemRoleDelete");
    assert_eq!(Role::find_by_id(&pool, OWNER).unwrap().name, "Owner");
}

#[test]
fn roles_are_deleted_unless_protected_or_held() {
    let (_, mut pool) = with_team();
    let data = CreateRole { name: "guest".to_string(), description: None };
    Role::create(&mut pool, &data, 50, 5).unwrap();
    Role::grant(&mut pool, 50, 100).unwrap();
    for id in [OWNER, ADMIN, MEMBER, VIEWER] {
        assert_eq!(kind(Role::delete(&mut pool, id).unwrap_err()), "SystemRoleDelete");
    }
    assert_eq!(kind(Role::delete(&mut pool, 999).unwrap_err()), "RoleNotFound");
    let member = CreateWorkspaceMember { user_id: "u5".to_string(), role_id: 50, invited_by: None };
    WorkspaceMember::create(&mut pool, W, &member, 5, 20).unwrap();
    assert_eq!(kind(Role::delete(&mut pool, 50).unwrap_err()), "Database(ForeignKeyViolation)");
    assert_eq!(WorkspaceMember::delete_by_team_and_user(&mut pool, W, "u5"), 1);
    assert_eq!(WorkspaceMember::delete_by_team_and_user(&mut pool, W, "u5"), 0);
    assert!(Role::delete(&mut pool, 50).is_ok());
    assert!(Role::find_by_id(&pool, 50).is_none());
    assert!(!Role::granted(&pool, 50, 100));
    assert!(Role::granted(&pool, OWNER, 100));
}

#[test]
fn member_rows_are_written_under_constraints() {
    let (_, mut pool) = with_team();
    let data = CreateWorkspaceMember { user_id: "u2".to_string(), role_id: MEMBER, invited_by: None };
    assert_eq!(WorkspaceMember::create(&mut pool, W, &data, 1, 5).unwrap_err(), StoreError::UniqueViolation);
    assert_eq!(
        WorkspaceMember::create(&mut pool, 0x78, &data, 2, 5).unwrap_err(),
        StoreError::ForeignKeyViolation
    );
    let odd = CreateWorkspaceMember { user_id: "u2".to_string(), role_id: 999, invited_by: None };
    assert_eq!(WorkspaceMember::create(&mut pool, W, &odd, 2, 5).unwrap_err(), StoreError::ForeignKeyViolation);
    let member = WorkspaceMember::create(&mut pool, W, &data, 2, 5).unwrap();
    assert_eq!(member.joined_at, 5);
    assert_eq!(WorkspaceMember::update_role(&mut pool, 9, MEMBER, 6).unwrap_err(), StoreError::RowNotFound);
    assert_eq!(
        WorkspaceMember::update_role(&mut pool, 2, 999, 6).unwrap_err(),
        StoreError::ForeignKeyViolation
    );
    let changed = WorkspaceMember::update_role(&mut pool, 2, VIEWER, 6).unwrap();
    assert_eq!((changed.role_id, changed.updated_at, changed.joined_at), (VIEWER, 6, 5));
    assert_eq!(WorkspaceMember::get_role(&pool, W, "u2").unwrap().name, "Viewer");
    assert_eq!(WorkspaceMember::delete(&mut pool, 2), 1);
    assert_eq!(WorkspaceMember::delete(&mut pool, 2), 0);
    // Members joined at 5 stand before members joined at 10.
    let data = CreateWorkspaceMember { user_id: "u0".to_string(), role_id: MEMBER, invited_by: None };
    WorkspaceMember::create(&mut pool, W, &data, 3, 5).unwrap();
    let order: Vec<&str> =
        WorkspaceMember::find_all_for_team(&pool, W).iter().map(|m| m.user_id.as_str()).collect();
    assert_eq!(order, vec!["u0", "u1"]);
}

#[test]
fn seeded_roles_are_nested() {
    let mut pool = seeded();
    assert!(Role::covers(&pool, OWNER, MEMBER));
    assert!(Role::covers(&pool, MEMBER, VIEWER));
    assert!(Role::covers(&pool, OWNER, VIEWER));
    assert!(!Role::covers(&pool, VIEWER, MEMBER));
    assert!(!Role::covers(&pool, ADMIN, VIEWER));
    // A role without grants is covered by every role, and covers itself.
    assert!(Role::covers(&pool, VIEWER, ADMIN));
    assert!(Role::covers(&pool, ADMIN, ADMIN));
    assert!(Role::covers(&pool, 999, 998));
    Role::grant(&mut pool, VIEWER, 101).unwrap();
    assert!(!Role::covers(&pool, MEMBER, VIEWER));
}
