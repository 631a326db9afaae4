use auth_core::audit::AuditService;
use auth_core::error::AppError;
use auth_core::model::{CreateUserRequest, Role, UpdateUserRequest, UserSearch};
use auth_core::store::MemoryRepository;
use auth_core::users::UserService;

fn service_with_users(names: &[&str]) -> UserService {
    let mut users = UserService::new(MemoryRepository::new());
    for name in names {
        let created = users.create_user(CreateUserRequest {
            username: name.to_string(),
            email: Some(format!("{}@example.com", name)),
            password: "password123".to_string(),
        });
        assert!(created.is_ok());
    }
    users
}

#[test]
fn test_create_user_defaults() {
    let mut users = UserService::new(MemoryRepository::new());
    let user = users.create_user(CreateUserRequest {
        username: "bob".to_string(),
        email: None,
        password: "password123".to_string(),
    }).unwrap();
    assert_eq!(user.id, 1);
    assert_eq!(user.username, "bob");
    assert_eq!(user.role, Role::User);
    assert!(!user.email_verified);
    assert!(user.avatar_url.is_none());
    // The stored hash is never the raw password.
    assert_ne!(user.password_hash, "password123");
}

#[test]
fn test_duplicate_username_conflicts() {
    let mut users = service_with_users(&["bob"]);
    let err = users.create_user(CreateUserRequest {
        username: "bob".to_string(),
        email: None,
        password: "password123".to_string(),
    }).unwrap_err();
    assert!(matches!(err, AppError::Conflict(_)));
}

#[test]
fn test_duplicate_email_conflicts() {
    let mut users = service_with_users(&["bob"]);
    let err = users.create_user(CreateUserRequest {
        username: "robert".to_string(),
        email: Some("bob@example.com".to_string()),
        password: "password123".to_string(),
    }).unwrap_err();
    assert!(matches!(err, AppError::Conflict(_)));
}

#[test]
fn test_non_admin_cannot_set_role() {
    let mut users = service_with_users(&["victim", "attacker"]);
    let attacker = users.repository.get_by_username("attacker").unwrap();
    // Against another user's account.
    let err = users.update_user(
        1,
        UpdateUserRequest { email: None, role: Some(Role::Admin) },
        attacker.id,
        attacker.role,
    ).unwrap_err();
    assert!(matches!(err, AppError::Forbidden(_)));
    // Even against their own account.
    let err = users.update_user(
        attacker.id,
        UpdateUserRequest { email: None, role: Some(Role::Admin) },
        attacker.id,
        attacker.role,
    ).unwrap_err();
    assert!(matches!(err, AppError::Forbidden(_)));
}

#[test]
fn test_non_admin_cannot_edit_others() {
    let mut users = service_with_users(&["victim", "attacker"]);
    let attacker = users.repository.get_by_username("attacker").unwrap();
    let err = users.update_user(
        1,
        UpdateUserRequest { email: Some("stolen@example.com".to_string()), role: None },
        attacker.id,
        attacker.role,
    ).unwrap_err();
    assert!(matches!(err, AppError::Forbidden(_)));
}

#[test]
fn test_admin_can_assign_roles() {
    let mut users = service_with_users(&["bob"]);
    let updated = users.update_user(
        1,
        UpdateUserRequest { email: None, role: Some(Role::Admin) },
        999,
        Role::Admin,
    ).unwrap();
    assert_eq!(updated.role, Role::Admin);
}

#[test]
fn test_email_change_resets_verified_flag() {
    let mut users = service_with_users(&["bob"]);
    // Mark the address verified first.
    users.repository.verify_email(1);
    assert!(users.repository.get_by_id(1).unwrap().email_verified);

    // Re-sending the same address is no change: the flag survives.
    let same = users.update_user(
        1,
        UpdateUserRequest { email: Some("bob@example.com".to_string()), role: None },
        1,
        Role::User,
    ).unwrap();
    assert!(same.email_verified);

    // A different address drops the flag.
    let changed = users.update_user(
        1,
        UpdateUserRequest { email: Some("new@example.com".to_string()), role: None },
        1,
        Role::User,
    ).unwrap();
    assert!(!changed.email_verified);
    assert_eq!(changed.email.as_deref(), Some("new@example.com"));
}

#[test]
fn test_delete_user_rbac_protection() {
    let mut users = service_with_users(&["victim", "attacker"]);
    let attacker = users.repository.get_by_username("attacker").unwrap();
    let err = users.delete_user(1, attacker.id, attacker.role, &attacker.username).unwrap_err();
    assert!(matches!(err, AppError::Forbidden(_)));
    assert!(users.repository.get_by_id(1).is_some());
}

#[test]
fn test_delete_user_writes_audit_record() {
    let mut users = service_with_users(&["victim"]);
    users.delete_user(1, 999, Role::Admin, "root").unwrap();
    assert!(users.repository.get_by_id(1).is_none());
    let audit = AuditService::new(users.repository);
    let logs = audit.get_audit_logs().unwrap();
    assert_eq!(logs.len(), 1);
    assert_eq!(logs[0].admin_username, "root");
    assert_eq!(logs[0].action, "DELETE_USER");
    assert_eq!(logs[0].target, "victim");
}

#[test]
fn test_pagination() {
    let users = service_with_users(&["user_a", "user_b", "user_c"]);
    let (page, total, total_pages) = users.get_users(UserSearch {
        q: None,
        page: 1,
        limit: 1,
    }).unwrap();
    assert_eq!(page.len(), 1);
    assert_eq!(total, 3);
    assert_eq!(total_pages, 3);

    let (page2, _, _) = users.get_users(UserSearch { q: None, page: 2, limit: 2 }).unwrap();
    assert_eq!(page2.len(), 1);
    assert_eq!(page2[0].username, "user_c");

    let (beyond, _, _) = users.get_users(UserSearch { q: None, page: 9, limit: 2 }).unwrap();
    assert!(beyond.is_empty());
}

#[test]
fn test_search_filters_by_substring() {
    let users = service_with_users(&["alice", "bob", "alicia"]);
    let (hits, total, _) = users.get_users(UserSearch {
        q: Some("alic".to_string()),
        page: 1,
        limit: 10,
    }).unwrap();
    assert_eq!(total, 2);
    assert_eq!(hits.len(), 2);
    assert!(hits.iter().all(|u| u.username.contains("alic")));
}

#[test]
fn test_stats_counts_admins() {
    let mut users = service_with_users(&["root", "bob", "eve"]);
    users.update_user(1, UpdateUserRequest { email: None, role: Some(Role::Admin) }, 99, Role::Admin)
        .unwrap();
    let audit = AuditService::new(users.repository);
    let stats = audit.get_stats().unwrap();
    assert_eq!(stats.total_users, 3);
    assert_eq!(stats.active_users, 3);
    assert_eq!(stats.admin_users, 1);
    // Everyone was created just now, on today's date.
    assert_eq!(stats.new_users_today, 3);
}

#[test]
fn test_update_avatar() {
    let mut users = service_with_users(&["bob"]);
    let user = users.update_avatar(1, "/uploads/1_99.png").unwrap();
    assert_eq!(user.avatar_url.as_deref(), Some("/uploads/1_99.png"));
    assert!(matches!(users.update_avatar(42, "/x.png"), Err(AppError::NotFound(_))));
}

#[test]
fn test_get_user_not_found() {
    let users = UserService::new(MemoryRepository::new());
    assert!(matches!(users.get_user(7), Err(AppError::NotFound(_))));
}

#[test]
fn test_audit_logs_newest_first() {
    let mut audit = AuditService::new(MemoryRepository::new());
    audit.record("root", "FIRST", "a").unwrap();
    audit.record("root", "SECOND", "b").unwrap();
    let logs = audit.get_audit_logs().unwrap();
    assert_eq!(logs.len(), 2);
    assert_eq!(logs[0].action, "SECOND");
    assert_eq!(logs[1].action, "FIRST");
}

#[test]
fn test_update_email_to_taken_address_conflicts() {
    let mut users = service_with_users(&["bob", "eve"]);
    let err = users.update_user(
        1,
        UpdateUserRequest { email: Some("eve@example.com".to_string()), role: None },
        1,
        Role::User,
    ).unwrap_err();
    assert!(matches!(err, AppError::Conflict(_)));
}

#[test]
fn test_empty_query_matches_everyone() {
    let users = service_with_users(&["bob", "eve"]);
    let (_, total, _) = users.get_users(UserSearch {
        q: Some(String::new()),
        page: 1,
        limit: 10,
    }).unwrap();
    assert_eq!(total, 2);
}

#[test]
fn test_registration_mints_verification_token() {
    let users = service_with_users(&["bob"]);
    // An account created with an email gets a pending verification token.
    assert_eq!(users.repository.email_verification_tokens.len(), 1);
    let record = &users.repository.email_verification_tokens[0];
    assert_eq!(record.user_id, 1);
    assert!(!record.used);
}
