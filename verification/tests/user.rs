use hubu_core::user::{identity_key_for_email, CreateUserRequest, UserError, UserManager};

#[test]
fn creates_default_user_once_with_public_id() {
    let mut manager = UserManager::new();

    let first = manager.ensure_default_user().unwrap();
    let second = manager.ensure_default_user().unwrap();

    assert_eq!(first.id, second.id);
    assert_eq!(first.display_name, "Hubu User");
    assert!(first.pub_id.starts_with("usr_"));
    assert_eq!(first.pub_id.len(), "usr_".len() + 12);
    assert_eq!(manager.user_id_for_pub_id(&first.pub_id).unwrap(), Some(first.id));
    assert_eq!(manager.default_user_context().unwrap().user_id, second.id);
}

#[test]
fn explicit_user_creation_adds_new_default_user() {
    let mut manager = UserManager::new();
    let fallback = manager.ensure_default_user().unwrap();

    let explicit = manager
        .create_user(CreateUserRequest {
            display_name: "Demo User".to_string(),
            email: Some("demo@example.com".to_string()),
        })
        .unwrap();

    assert_ne!(fallback.id, explicit.id);
    assert_eq!(explicit.display_name, "Demo User");
    assert_eq!(explicit.email.as_deref(), Some("demo@example.com"));
    assert_eq!(manager.user_id_for_pub_id(&explicit.pub_id).unwrap(), Some(explicit.id));
    assert_eq!(manager.user_for_id(&explicit.id).unwrap(), Some(explicit.clone()));
    assert_eq!(manager.default_user_context().unwrap().user_id, explicit.id);
}

#[test]
fn explicit_init_new_email_creates_new_user_and_same_email_reuses() {
    let mut manager = UserManager::new();
    let first = manager
        .create_user(CreateUserRequest { display_name: "First".to_string(), email: Some("a@example.com".to_string()) })
        .unwrap();
    let again = manager
        .create_user(CreateUserRequest { display_name: "Other".to_string(), email: Some(" A@Example.com ".to_string()) })
        .unwrap();
    let second = manager
        .create_user(CreateUserRequest { display_name: "Second".to_string(), email: Some("b@example.com".to_string()) })
        .unwrap();
    assert_eq!(first, again);
    assert_ne!(first.id, second.id);
    assert_eq!(manager.default_user_context().unwrap().user_id, second.id);
}

#[test]
fn missing_default_user_has_no_context_and_email_keys_are_normalized() {
    let manager = UserManager::new();
    assert_eq!(manager.default_user_context().unwrap_err(), UserError::MissingDefaultUser);
    assert_eq!(manager.default_user().unwrap(), None);
    assert_eq!(identity_key_for_email("  Demo@Example.COM\t"), "email:demo@example.com");
}

#[test]
fn stored_users_load_back_with_their_selection() {
    let mut original = UserManager::new();
    let default = original.ensure_default_user().unwrap();
    let alice = original
        .create_user(CreateUserRequest { display_name: "Alice".to_string(), email: Some("alice@example.com".to_string()) })
        .unwrap();

    let identities = vec![
        ("system:local-default".to_string(), default.id),
        (identity_key_for_email("alice@example.com"), alice.id),
    ];
    let mut loaded =
        UserManager::from_records(vec![default.clone(), alice.clone()], identities.clone(), Some(alice.id)).unwrap();
    assert_eq!(loaded.default_user().unwrap(), Some(alice.clone()));
    assert_eq!(loaded.user_id_for_pub_id(&default.pub_id).unwrap(), Some(default.id));
    let again = loaded
        .create_user(CreateUserRequest { display_name: "Alice again".to_string(), email: Some(" ALICE@example.com ".to_string()) })
        .unwrap();
    assert_eq!(again.id, alice.id);
    assert_eq!(loaded.ensure_default_user().unwrap().id, alice.id);

    let unselected = UserManager::from_records(vec![default.clone()], vec![], Some(alice.id)).unwrap();
    assert_eq!(unselected.default_user().unwrap(), None);
    assert!(matches!(unselected.default_user_context(), Err(UserError::MissingDefaultUser)));
}

#[test]
fn colliding_or_dangling_user_records_are_refused() {
    let mut original = UserManager::new();
    let user = original.ensure_default_user().unwrap();
    let refused = |r: Result<UserManager, UserError>| match r {
        Err(UserError::Storage(hubu_core::storage::StorageError::InvalidData(m))) => {
            m == "stored user records are inconsistent"
        }
        _ => false,
    };
    assert!(refused(UserManager::from_records(vec![user.clone(), user.clone()], vec![], None)));
    assert!(refused(UserManager::from_records(vec![], vec![("k".to_string(), user.id)], None)));
    assert!(refused(UserManager::from_records(
        vec![user.clone()],
        vec![("k".to_string(), user.id), ("k".to_string(), user.id)],
        None
    )));
}

#[test]
fn sqlite_explicit_init_new_email_creates_new_user_and_same_email_reuses() {
    let mut manager = UserManager::new();
    let default = manager.ensure_default_user().unwrap();
    let first = manager
        .create_user(CreateUserRequest { display_name: "Alice".to_string(), email: Some("Alice@Example.com".to_string()) })
        .unwrap();
    let mut manager = UserManager::from_records(
        vec![default.clone(), first.clone()],
        vec![
            ("system:local-default".to_string(), default.id),
            (identity_key_for_email("Alice@Example.com"), first.id),
        ],
        Some(first.id),
    )
    .unwrap();
    let second = manager
        .create_user(CreateUserRequest { display_name: "Alice Again".to_string(), email: Some("alice@example.com".to_string()) })
        .unwrap();

    assert_ne!(default.id, first.id);
    assert_eq!(first.id, second.id);
    assert_eq!(first.display_name, "Alice");
}
