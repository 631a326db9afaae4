use auth_core::model::{AvatarData, CreateUserRequest, Role};

#[test]
fn test_role_default_is_user() {
    assert_eq!(Role::default(), Role::User);
}

#[test]
fn test_create_user_validation() {
    let req = CreateUserRequest {
        username: "usuario_valido".to_string(),
        email: Some("test@example.com".to_string()),
        password: "passwordSeguro123".to_string(),
    };
    assert!(req.validate().is_ok());

    let req_bad_user = CreateUserRequest {
        username: "yo".to_string(),
        email: None,
        password: "passwordSeguro123".to_string(),
    };
    assert!(req_bad_user.validate().is_err());

    let req_bad_pass = CreateUserRequest {
        username: "usuario_valido".to_string(),
        email: None,
        password: "123".to_string(),
    };
    assert!(req_bad_pass.validate().is_err());
}

#[test]
fn test_email_format_rejects_bad_shapes() {
    let req = CreateUserRequest {
        username: "valid_user".to_string(),
        email: Some("not-an-email".to_string()),
        password: "passwordSeguro123".to_string(),
    };
    assert!(req.validate().is_err());

    let empty = CreateUserRequest {
        username: "valid_user".to_string(),
        email: Some(String::new()),
        password: "passwordSeguro123".to_string(),
    };
    assert!(empty.validate().is_err());
}

#[test]
fn test_avatar_validation() {
    let good = AvatarData {
        filename: "me.png".to_string(),
        data: vec![1, 2, 3],
        content_type: "image/png".to_string(),
    };
    assert!(good.validate().is_ok());

    let wrong_type = AvatarData {
        filename: "notes.txt".to_string(),
        data: vec![1, 2, 3],
        content_type: "text/plain".to_string(),
    };
    assert!(wrong_type.validate().is_err());

    let too_large = AvatarData {
        filename: "huge.png".to_string(),
        data: vec![0u8; 2 * 1024 * 1024 + 1],
        content_type: "image/png".to_string(),
    };
    assert!(too_large.validate().is_err());
}

#[test]
fn test_default_pagination_values() {
    assert_eq!(auth_core::model::default_page(), 1);
    assert_eq!(auth_core::model::default_limit(), 10);
}

#[test]
fn test_timestamp_rendering() {
    let t = auth_core::clock::timestamp_text_of(0);
    assert_eq!(t, "1970-01-01 00:00:00");
    let t2 = auth_core::clock::timestamp_text_of(1700000000);
    assert_eq!(t2, "2023-11-14 22:13:20");
}
