use rpublish::identity_manager::{
    IdentityErrorKind, IdentityManager, Session, Sessions, User, UserPermissions, Users,
};

#[test]
fn created_users_can_be_found_and_authenticated() {
    let mut users = Users::new();
    users.create("alice", "correct horse").unwrap();

    let user = users.get("alice").unwrap();
    assert_eq!(user.user_name().as_str(), "alice");
    assert!(user.enabled());
    assert!(user.permissions().is_empty());
    assert!(user.authenticate("correct horse").is_ok());

    let err = user.authenticate("wrong").unwrap_err();
    assert!(matches!(err.kind(), IdentityErrorKind::AuthFailed));
}

#[test]
fn unknown_users_are_not_found() {
    let users = Users::new();
    let err = users.get("nobody").unwrap_err();
    assert!(matches!(err.kind(), IdentityErrorKind::UserNotFound));
}

#[test]
fn duplicate_user_names_are_rejected() {
    let mut users = Users::new();
    users.create("alice", "pw").unwrap();
    let err = users.create("alice", "other").unwrap_err();
    assert!(matches!(err.kind(), IdentityErrorKind::UserAlreadyExist));
    assert_eq!(users.user_count(), 1);
}

#[test]
fn names_and_passwords_are_stored_trimmed() {
    let mut users = Users::new();
    users.create("  bob  ", "  secret  ").unwrap();
    let user = users.get("bob").unwrap();
    assert_eq!(user.user_name().as_str(), "bob");
    assert!(user.authenticate("secret").is_ok());
    assert!(user.authenticate("  secret  ").is_err());
}

#[test]
fn login_gives_one_generic_failure_for_user_and_password() {
    let mut identity = IdentityManager::new(false);
    identity.users.create("alice", "pw").unwrap();

    let wrong_password = identity.login("alice", "wrong", "sess1", "1.2.3.4").unwrap_err();
    assert!(matches!(wrong_password.kind(), IdentityErrorKind::AuthFailed));

    let unknown_user = identity.login("nobody", "x", "sess2", "1.2.3.4").unwrap_err();
    assert!(matches!(unknown_user.kind(), IdentityErrorKind::AuthFailed));

    assert!(!identity.sessions.validate("sess1", "1.2.3.4"));
    assert!(!identity.sessions.validate("sess2", "1.2.3.4"));
}

#[test]
fn successful_login_creates_a_session() {
    let mut identity = IdentityManager::new(true);
    identity.users.create("alice", "pw").unwrap();
    identity.login("alice", "pw", "sess1", "1.2.3.4").unwrap();

    assert!(identity.sessions.validate("sess1", "1.2.3.4"));
    let owner = identity.sessions.get_user(&"sess1".to_owned()).unwrap();
    assert_eq!(owner, "alice");
}

#[test]
fn bound_sessions_reject_other_addresses_without_deleting() {
    let mut sessions = Sessions::new(true);
    sessions.create_at("s".to_owned(), "u".to_owned(), "1.1.1.1".to_owned(), 0);
    assert!(sessions.validate("s", "1.1.1.1"));
    assert!(!sessions.validate("s", "2.2.2.2"));
    // The mismatch did not delete the session.
    assert!(sessions.validate("s", "1.1.1.1"));
}

#[test]
fn unbound_sessions_ignore_the_address() {
    let mut sessions = Sessions::new(false);
    sessions.create_at("s".to_owned(), "u".to_owned(), "1.1.1.1".to_owned(), 0);
    assert!(sessions.validate("s", "9.9.9.9"));
    assert!(!sessions.validate("absent", "1.1.1.1"));
}

#[test]
fn invalidate_is_idempotent() {
    let mut sessions = Sessions::new(false);
    sessions.create("s".to_owned(), "u".to_owned(), "1.1.1.1".to_owned());
    sessions.invalidate("s");
    assert!(!sessions.validate("s", "1.1.1.1"));
    sessions.invalidate("s");
    sessions.invalidate("never existed");
    assert_eq!(sessions.session_count(), 0);
}

#[test]
fn creating_a_session_twice_overwrites_it() {
    let mut sessions = Sessions::new(false);
    sessions.create_at("s".to_owned(), "first".to_owned(), "1.1.1.1".to_owned(), 1);
    sessions.create_at("s".to_owned(), "second".to_owned(), "2.2.2.2".to_owned(), 2);
    assert_eq!(sessions.session_count(), 1);
    let owner = sessions.get_user(&"s".to_owned()).unwrap();
    assert_eq!(owner, "second");
    let (sessid, session) = sessions.session_at(0);
    assert_eq!(sessid.as_str(), "s");
    assert_eq!(session.username().as_str(), "second");
    assert_eq!(session.ip().as_str(), "2.2.2.2");
    assert_eq!(session.date(), 2);
}

#[test]
fn deleting_a_user_requires_the_password() {
    let mut users = Users::new();
    users.create("alice", "pw").unwrap();

    let err = users.delete("alice", "wrong").unwrap_err();
    assert!(matches!(err.kind(), IdentityErrorKind::AuthFailed));
    assert_eq!(users.user_count(), 1);

    let err = users.delete("nobody", "pw").unwrap_err();
    assert!(matches!(err.kind(), IdentityErrorKind::UserNotFound));

    users.delete("alice", "pw").unwrap();
    assert_eq!(users.user_count(), 0);
    assert!(users.get("alice").is_err());
}

#[test]
fn permissions_are_granted_once() {
    let mut users = Users::new();
    users.create("alice", "pw").unwrap();
    // Re-read the record mutably through its position.
    let mut user = User::from_record(
        users.user_at(0).user_name().clone(),
        users.user_at(0).password_hash().clone(),
        users.user_at(0).password_update_date(),
        users.user_at(0).created_date(),
        users.user_at(0).last_login_date(),
        users.user_at(0).enabled(),
        users.user_at(0).permissions().clone(),
    );
    user.set_permission(UserPermissions::Admin);
    user.set_permission(UserPermissions::Editor);
    user.set_permission(UserPermissions::Admin);
    assert_eq!(user.permissions().len(), 2);
    assert_eq!(user.permissions()[0], UserPermissions::Admin);
    assert_eq!(user.permissions()[1], UserPermissions::Editor);
}

#[test]
fn records_survive_a_store_round_trip() {
    let hash = User::hash_password("root password");
    let restored = User::from_record(
        "admin".to_owned(),
        hash,
        10,
        10,
        20,
        true,
        vec![UserPermissions::Admin, UserPermissions::Editor],
    );
    assert!(restored.authenticate("root password").is_ok());
    assert!(restored.authenticate("other").is_err());
    assert_eq!(restored.created_date(), 10);
    assert_eq!(restored.last_login_date(), 20);

    let mut users = Users::new();
    users.load_user(restored);
    let fetched = users.get("admin").unwrap();
    assert_eq!(fetched.permissions().len(), 2);
}

#[test]
fn session_records_round_trip() {
    let session = Session::new("alice".to_owned(), "1.2.3.4".to_owned(), 42);
    assert_eq!(session.username().as_str(), "alice");
    assert_eq!(session.ip().as_str(), "1.2.3.4");
    assert_eq!(session.date(), 42);
}

#[test]
fn identity_error_message_is_stable() {
    let users = Users::new();
    let err = users.get("nobody").unwrap_err();
    assert_eq!(err.message(), "Identity Error");
}
