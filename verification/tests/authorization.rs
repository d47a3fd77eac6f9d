use workspace_authz::authorization::{
    can_access_task, can_delete_task, can_edit_session, can_edit_task, can_edit_workspace,
    extract_workspace_id, has_permission, load_task_auth_context, load_workspace_auth_context,
    require_auth, require_permission, AuthContext, Lookup, OwnershipStrategy, Permission, Role,
};

fn all_permissions() -> Vec<Permission> {
    (0u8..=40).filter_map(Permission::from_ordinal).collect()
}

#[test]
fn test_admin_has_all_permissions() {
    let auth = AuthContext::new(Some(uuid::Uuid::new_v4().as_u128()), Role::Admin);
    assert!(auth.has_permission(Permission::TaskRead));
    assert!(auth.has_permission(Permission::TaskCreate));
    assert!(auth.has_permission(Permission::TaskUpdate));
    assert!(auth.has_permission(Permission::TaskDelete));
    assert!(auth.has_permission(Permission::AdminAccess));
}

#[test]
fn test_member_permissions() {
    let auth = AuthContext::new(Some(uuid::Uuid::new_v4().as_u128()), Role::Member);
    assert!(auth.has_permission(Permission::TaskRead));
    assert!(auth.has_permission(Permission::TaskCreate));
    assert!(!auth.has_permission(Permission::TaskUpdate));
    assert!(!auth.has_permission(Permission::TaskDelete));
    assert!(auth.has_permission(Permission::OwnTaskUpdate));
    assert!(auth.has_permission(Permission::OwnTaskDelete));
    assert!(!auth.has_permission(Permission::AdminAccess));
}

#[test]
fn test_viewer_permissions() {
    let auth = AuthContext::new(Some(uuid::Uuid::new_v4().as_u128()), Role::Viewer);
    assert!(auth.has_permission(Permission::TaskRead));
    assert!(!auth.has_permission(Permission::TaskCreate));
    assert!(!auth.has_permission(Permission::TaskUpdate));
    assert!(!auth.has_permission(Permission::TaskDelete));
    assert!(!auth.has_permission(Permission::AdminAccess));
}

#[test]
fn test_has_any_permission() {
    let auth = AuthContext::new(Some(uuid::Uuid::new_v4().as_u128()), Role::Viewer);
    assert!(auth.has_any_permission(&[Permission::TaskRead, Permission::TaskCreate]));
    assert!(!auth.has_any_permission(&[Permission::TaskUpdate, Permission::TaskDelete]));
}

#[test]
fn test_has_all_permissions() {
    let auth = AuthContext::new(Some(uuid::Uuid::new_v4().as_u128()), Role::Admin);
    assert!(auth.has_all_permissions(&[Permission::TaskRead, Permission::TaskCreate]));
    assert!(auth.has_all_permissions(&[
        Permission::TaskRead,
        Permission::TaskCreate,
        Permission::TaskUpdate,
        Permission::TaskDelete
    ]));

    let viewer = AuthContext::new(Some(uuid::Uuid::new_v4().as_u128()), Role::Viewer);
    assert!(!viewer.has_all_permissions(&[Permission::TaskRead, Permission::TaskCreate]));
}

#[test]
fn test_workspace_context() {
    let workspace_id = uuid::Uuid::new_v4().as_u128();
    let auth = AuthContext::default().with_workspace(Some(workspace_id));
    assert_eq!(auth.workspace_id, Some(workspace_id));
}

#[test]
fn catalog_has_twenty_six_keys() {
    let all = all_permissions();
    assert_eq!(all.len(), 26);
    assert_eq!(all[0], Permission::TaskRead);
    assert_eq!(all[25], Permission::AdminAccess);
    assert_eq!(Permission::from_ordinal(26), None);
}

#[test]
fn role_sets_have_their_sizes() {
    assert_eq!(Role::Admin.permissions().len(), 26);
    assert_eq!(Role::Member.permissions().len(), 16);
    assert_eq!(Role::Viewer.permissions().len(), 7);
    assert_eq!(
        Role::Viewer.permissions(),
        vec![
            Permission::TaskRead,
            Permission::OwnTaskRead,
            Permission::WorkspaceRead,
            Permission::OwnWorkspaceRead,
            Permission::SessionRead,
            Permission::OwnSessionRead,
            Permission::ProjectRead,
        ]
    );
}

#[test]
fn permission_sets_are_nested_for_every_key() {
    for p in all_permissions() {
        if Role::Viewer.holds(p) {
            assert!(Role::Member.holds(p), "{:?}", p);
        }
        if Role::Member.holds(p) {
            assert!(Role::Admin.holds(p), "{:?}", p);
        }
        assert!(Role::Admin.holds(p));
        assert_eq!(Role::Member.permissions().contains(&p), Role::Member.holds(p));
    }
}

#[test]
fn empty_lists_of_permissions() {
    let viewer = AuthContext::new(None, Role::Viewer);
    assert!(!viewer.has_any_permission(&[]));
    assert!(viewer.has_all_permissions(&[]));
}

#[test]
fn default_context_is_the_local_admin() {
    let auth = AuthContext::default();
    assert_eq!(auth.user_id, None);
    assert_eq!(auth.role, Role::Admin);
    assert_eq!(auth.workspace_id, None);
    assert!(has_permission(&auth, Permission::AdminAccess));
}

#[test]
fn assert_permission_refuses_with_forbidden() {
    let viewer = AuthContext::new(Some(1), Role::Viewer);
    assert_eq!(viewer.assert_permission(Permission::TaskRead), Ok(()));
    assert_eq!(viewer.assert_permission(Permission::TaskCreate), Err(403));
    assert_eq!(require_permission(Permission::TaskDelete, Some(viewer)), Err(403));
    assert_eq!(require_permission(Permission::TaskDelete, None), Ok(()));
}

#[test]
fn own_resource_checks_follow_the_strategy() {
    let member = AuthContext::new(Some(7), Role::Member);
    let always = OwnershipStrategy::AlwaysOwner;
    let by_field = OwnershipStrategy::FieldBasedOwner;
    // Members read every task, whoever owns it.
    assert!(can_access_task(by_field, &member, Some(8)));
    // Members edit only what they own.
    assert!(can_edit_task(always, &member, Some(8)));
    assert!(can_edit_task(by_field, &member, Some(7)));
    assert!(!can_edit_task(by_field, &member, Some(8)));
    assert!(!can_edit_task(by_field, &member, None));
    assert!(can_delete_task(by_field, &member, Some(7)));
    assert!(can_edit_workspace(by_field, &member, Some(7)));
    assert!(!can_edit_session(by_field, &member, Some(9)));
    // Viewers hold no permission to write, not even on what they own.
    let viewer = AuthContext::new(Some(7), Role::Viewer);
    assert!(!can_edit_task(always, &viewer, Some(7)));
    assert!(!can_edit_task(by_field, &viewer, Some(7)));
    // An anonymous principal owns nothing by field.
    let anonymous = AuthContext::new(None, Role::Member);
    assert!(!can_edit_task(by_field, &anonymous, None));
    // Admins pass every check.
    let admin = AuthContext::new(Some(1), Role::Admin);
    assert!(can_edit_task(by_field, &admin, Some(7)));
}

#[test]
fn workspace_comes_from_the_path_then_the_header() {
    let header = "550e8400-e29b-41d4-a716-446655440000";
    let id = 0x550e8400_e29b_41d4_a716_446655440000u128;
    assert_eq!(extract_workspace_id(Some(header), None), Some(id));
    assert_eq!(extract_workspace_id(Some(header), Some(5)), Some(5));
    assert_eq!(extract_workspace_id(Some("not-a-uuid"), None), None);
    assert_eq!(extract_workspace_id(None, None), None);
    assert_eq!(extract_workspace_id(Some("550E8400E29B41D4A716446655440000"), None), Some(id));
    let auth = require_auth(Some(header));
    assert_eq!(auth.workspace_id, Some(id));
    assert_eq!(auth.role, Role::Admin);
}

#[test]
fn loading_a_context_reports_lookups() {
    let viewer = AuthContext::new(Some(7), Role::Viewer);
    assert_eq!(
        load_workspace_auth_context(Lookup::Found, 9, Some(viewer)),
        Ok(AuthContext { user_id: Some(7), role: Role::Viewer, workspace_id: Some(9) })
    );
    assert_eq!(load_workspace_auth_context(Lookup::Missing, 9, Some(viewer)), Err(404));
    assert_eq!(load_workspace_auth_context(Lookup::Failed, 9, None), Err(500));
    let by_field = OwnershipStrategy::FieldBasedOwner;
    assert_eq!(load_task_auth_context(Lookup::Found, by_field, Some(1), Some(viewer)), Ok(()));
    assert_eq!(load_task_auth_context(Lookup::Missing, by_field, None, None), Err(404));
    assert_eq!(load_task_auth_context(Lookup::Failed, by_field, None, None), Err(500));
}
