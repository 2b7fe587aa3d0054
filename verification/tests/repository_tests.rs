use user_service::models::user::RepoError;
use user_service::models::{
    InMemorySessionRepository, InMemoryUserRepository, Session, SessionRepository, User,
    UserRepository,
};

const NOW: i64 = 1_700_000_000_000;

fn make_session(ttl_secs: i64, user_id: u128) -> Session {
    Session {
        id: "test-session-id".into(),
        user_id,
        expires_at: NOW + ttl_secs * 1000,
        created_at: NOW,
    }
}

#[test]
fn session_insert_and_find() {
    let mut repo = InMemorySessionRepository::new();
    let session = make_session(7200, 0x1111);
    repo.insert(session.clone());
    let found = repo.find_by_id("test-session-id", NOW).unwrap();
    assert_eq!(found.user_id, session.user_id);
}

#[test]
fn expired_session_is_none_and_deleted() {
    let mut repo = InMemorySessionRepository::new();
    let session = make_session(-10, 0x1111); // already expired
    repo.insert(session);
    assert!(repo.find_by_id("test-session-id", NOW).is_none());
    // Should have been lazily deleted.
    assert!(repo.find_by_id("test-session-id", NOW).is_none());
    assert!(!repo.delete("test-session-id"));
}

#[test]
fn session_expires_exactly_at_expiry() {
    let mut repo = InMemorySessionRepository::new();
    repo.insert(make_session(10, 0x1111));
    assert!(repo.find_by_id("test-session-id", NOW + 9_999).is_some());
    assert!(repo.find_by_id("test-session-id", NOW + 10_000).is_none());
}

#[test]
fn delete_session() {
    let mut repo = InMemorySessionRepository::new();
    repo.insert(make_session(7200, 0x1111));
    assert!(repo.delete("test-session-id"));
    assert!(!repo.delete("test-session-id"));
}

#[test]
fn delete_by_user() {
    let mut repo = InMemorySessionRepository::new();
    let uid: u128 = 0xabcdef;
    for i in 0..3 {
        repo.insert(Session {
            id: format!("sess-{i}"),
            user_id: uid,
            expires_at: NOW + 3_600_000,
            created_at: NOW,
        });
    }
    // Another user's session.
    repo.insert(Session {
        id: "other".into(),
        user_id: 0x123456,
        expires_at: NOW + 3_600_000,
        created_at: NOW,
    });

    let removed = repo.delete_by_user(uid);
    assert_eq!(removed, 3);
    assert!(repo.find_by_id("sess-0", NOW).is_none());
    assert!(repo.find_by_id("other", NOW).is_some());
    assert_eq!(repo.delete_by_user(uid), 0);
}

#[test]
fn session_insert_replaces_same_id() {
    let mut repo = InMemorySessionRepository::new();
    repo.insert(make_session(7200, 1));
    repo.insert(make_session(7200, 2));
    assert_eq!(repo.find_by_id("test-session-id", NOW).unwrap().user_id, 2);
    assert_eq!(repo.delete_by_user(1), 0);
    assert_eq!(repo.delete_by_user(2), 1);
}

fn make_user(id: u128, email: &str) -> User {
    User {
        id,
        email: email.into(),
        password_hash: "fake-hash".into(),
        nickname: "nickname".into(),
        phone: None,
        avatar: None,
        created_at: NOW,
        updated_at: NOW,
    }
}

#[test]
fn user_insert_and_find() {
    let mut repo = InMemoryUserRepository::new();
    let user = make_user(7, "Alice@Example.COM");
    repo.insert(user.clone()).unwrap();

    // email lookup is case-insensitive
    let found = repo.find_by_email("alice@example.com").unwrap();
    assert_eq!(found.id, user.id);
    assert_eq!(found.email, "Alice@Example.COM");

    // id lookup
    let found_by_id = repo.find_by_id(user.id).unwrap();
    assert_eq!(found_by_id.email, user.email);
}

#[test]
fn duplicate_email_rejected() {
    let mut repo = InMemoryUserRepository::new();
    repo.insert(make_user(1, "bob@test.com")).unwrap();
    let result = repo.insert(make_user(2, "BOB@test.com"));
    assert!(matches!(result, Err(RepoError::EmailAlreadyExists)));
    assert!(repo.find_by_id(2).is_none());
}

#[test]
fn find_missing_returns_none() {
    let repo = InMemoryUserRepository::new();
    assert!(repo.find_by_email("nobody@test.com").is_none());
    assert!(repo.find_by_id(42).is_none());
}

#[test]
fn update_profile_updates_fields() {
    let mut repo = InMemoryUserRepository::new();
    let user = make_user(9, "alice@example.com");
    repo.insert(user.clone()).unwrap();

    let updated = repo
        .update_profile(
            user.id,
            "爱丽丝".into(),
            Some("13800138000".into()),
            Some("https://example.com/a.png".into()),
            NOW + 5,
        )
        .unwrap();
    assert_eq!(updated.nickname, "爱丽丝");
    assert_eq!(updated.phone.as_deref(), Some("13800138000"));
    assert_eq!(updated.avatar.as_deref(), Some("https://example.com/a.png"));
    assert_eq!(updated.updated_at, NOW + 5);
    assert_eq!(updated.created_at, NOW);

    // Missing user returns None.
    assert!(repo.update_profile(12345, "x".into(), None, None, NOW).is_none());
}

#[test]
fn update_password_updates_hash() {
    let mut repo = InMemoryUserRepository::new();
    let user = make_user(3, "bob@example.com");
    repo.insert(user.clone()).unwrap();

    assert!(repo.update_password(user.id, "new-hash".into(), NOW + 1));
    let found = repo.find_by_id(user.id).unwrap();
    assert_eq!(found.password_hash, "new-hash");
    assert_eq!(found.updated_at, NOW + 1);

    assert!(!repo.update_password(99, "x".into(), NOW));
}
