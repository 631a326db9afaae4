use auth_core::error::AppError;
use auth_core::model::{CreateRoleRequest, Permission, UpdatePermissionRequest, UpdateRoleRequest};
use auth_core::roles::RoleService;
use auth_core::store::MemoryRepository;

fn service_with_permissions() -> RoleService {
    let mut store = MemoryRepository::new();
    store.permissions.push(Permission {
        id: 1,
        name: "users.read".to_string(),
        description: None,
        created_at: "2024-01-01 00:00:00".to_string(),
    });
    store.permissions.push(Permission {
        id: 2,
        name: "users.write".to_string(),
        description: None,
        created_at: "2024-01-01 00:00:00".to_string(),
    });
    RoleService::new(store)
}

#[test]
fn test_create_role_with_permissions() {
    let mut roles = service_with_permissions();
    let role = roles.create_role(CreateRoleRequest {
        name: "moderator".to_string(),
        description: Some("keeps the peace".to_string()),
        permissions: vec![1, 2],
    }).unwrap();
    assert_eq!(role.name, "moderator");
    let rows = roles.get_role_permissions().unwrap();
    assert_eq!(rows.len(), 2);
    assert!(rows.iter().all(|rp| rp.role_id == role.id));
    assert_eq!(rows[0].permission_id, 1);
    assert_eq!(rows[1].permission_id, 2);
}

#[test]
fn test_create_role_validates_and_conflicts() {
    let mut roles = service_with_permissions();
    let short = roles.create_role(CreateRoleRequest {
        name: "ab".to_string(),
        description: None,
        permissions: vec![],
    }).unwrap_err();
    assert!(matches!(short, AppError::Validation(_)));

    roles.create_role(CreateRoleRequest {
        name: "moderator".to_string(),
        description: None,
        permissions: vec![],
    }).unwrap();
    let taken = roles.create_role(CreateRoleRequest {
        name: "moderator".to_string(),
        description: None,
        permissions: vec![],
    }).unwrap_err();
    assert!(matches!(taken, AppError::Conflict(_)));
}

#[test]
fn test_update_role_replaces_permission_set() {
    let mut roles = service_with_permissions();
    let role = roles.create_role(CreateRoleRequest {
        name: "moderator".to_string(),
        description: None,
        permissions: vec![1, 2],
    }).unwrap();
    let renamed = roles.update_role(role.id, UpdateRoleRequest {
        name: Some("overseer".to_string()),
        description: Some("watches quietly".to_string()),
        permissions: Some(vec![2]),
    }).unwrap();
    assert_eq!(renamed.name, "overseer");
    assert_eq!(renamed.description.as_deref(), Some("watches quietly"));
    let rows = roles.get_role_permissions().unwrap();
    assert_eq!(rows.len(), 1);
    assert_eq!(rows[0].permission_id, 2);

    let missing = roles.update_role(999, UpdateRoleRequest {
        name: None,
        description: None,
        permissions: None,
    }).unwrap_err();
    assert!(matches!(missing, AppError::NotFound(_)));
}

#[test]
fn test_delete_role() {
    let mut roles = service_with_permissions();
    let role = roles.create_role(CreateRoleRequest {
        name: "moderator".to_string(),
        description: None,
        permissions: vec![],
    }).unwrap();
    roles.delete_role(role.id).unwrap();
    assert!(roles.get_roles().unwrap().is_empty());
    // Deleting a missing role is silently a no-op, like a relational
    // delete of zero rows.
    roles.delete_role(role.id).unwrap();
}

#[test]
fn test_update_permission_description() {
    let mut roles = service_with_permissions();
    let p = roles.update_permission(2, UpdatePermissionRequest {
        description: "may rewrite users".to_string(),
    }).unwrap();
    assert_eq!(p.id, 2);
    assert_eq!(p.name, "users.write");
    assert_eq!(p.description.as_deref(), Some("may rewrite users"));

    let missing = roles.update_permission(42, UpdatePermissionRequest {
        description: "nothing".to_string(),
    }).unwrap_err();
    assert!(matches!(missing, AppError::NotFound(_)));
}
