use cosmos::store::{Store, FOREIGN_KEY_VIOLATION, UNIQUE_VIOLATION};
use cosmos::users::models::{
    create_session, create_session_at, delete_expired_sessions, delete_expired_sessions_at,
    get_by_token, get_by_token_at, Error, User, UserSession, SESSION_SECONDS,
};

fn session(id: u128, token: u128, user_id: u128, expires_at: i64) -> UserSession {
    UserSession { id, token, user_id, expires_at }
}

fn stored(id: u128, username: &str) -> User {
    User {
        id,
        username: username.to_string(),
        email: format!("{}@example.com", username),
        password: "h".to_string(),
        active: false,
    }
}

fn store_with(users: &[(u128, &str)]) -> Store {
    let mut store = Store::new();
    for (id, name) in users {
        store.insert_user(stored(*id, name)).unwrap();
    }
    store
}

fn unix_seconds() -> i64 {
    std::time::SystemTime::now().duration_since(std::time::UNIX_EPOCH).unwrap().as_secs() as i64
}

#[test]
fn validity_is_thirty_days() {
    assert_eq!(SESSION_SECONDS, 2_592_000);
    assert_eq!(SESSION_SECONDS, 30 * 24 * 60 * 60);
}

#[test]
fn session_expires_thirty_days_after_issuance() {
    let mut store = store_with(&[(1, "alice")]);
    let issued = create_session_at(&mut store, &stored(1, "alice"), 10, 100, 1_000_000).unwrap();
    assert_eq!(issued, session(10, 100, 1, 3_592_000));
    assert_eq!(store.find_session_by_token(100), Some(issued));
}

#[test]
fn session_expiry_follows_the_clock() {
    let mut store = store_with(&[(1, "alice")]);
    let before = unix_seconds();
    let session = create_session(&mut store, stored(1, "alice")).unwrap();
    let after = unix_seconds();
    assert!(before + SESSION_SECONDS <= session.expires_at);
    assert!(session.expires_at <= after + SESSION_SECONDS);
    assert_eq!(session.user_id, 1);
    assert_ne!(session.token, session.id);
    assert_eq!(store.session_count(), 1);
}

#[test]
fn session_id_and_token_are_random_uuids() {
    let mut store = store_with(&[(1, "alice")]);
    let session = create_session(&mut store, stored(1, "alice")).unwrap();
    assert_eq!(uuid::Uuid::from_u128(session.token).get_version_num(), 4);
    assert_eq!(uuid::Uuid::from_u128(session.id).get_version_num(), 4);
    assert_eq!(uuid::Uuid::from_u128(session.token).get_variant(), uuid::Variant::RFC4122);
}

#[test]
fn ten_thousand_tokens_do_not_collide() {
    let mut store = store_with(&[(1, "alice")]);
    let mut tokens = std::collections::HashSet::new();
    for _ in 0..10_000 {
        let session = create_session(&mut store, stored(1, "alice")).unwrap();
        assert!(tokens.insert(session.token));
    }
    assert_eq!(tokens.len(), 10_000);
    assert_eq!(store.session_count(), 10_000);
}

#[test]
fn session_for_an_unknown_account_is_refused() {
    let mut store = store_with(&[(1, "alice")]);
    let r = create_session_at(&mut store, &stored(2, "bob"), 10, 100, 0);
    assert_eq!(r, Err(Error::QueryError(FOREIGN_KEY_VIOLATION.to_string())));
    let r = create_session(&mut store, stored(2, "bob"));
    assert_eq!(r, Err(Error::QueryError(FOREIGN_KEY_VIOLATION.to_string())));
    assert_eq!(store.session_count(), 0);
}

#[test]
fn session_with_a_taken_token_is_refused() {
    let mut store = store_with(&[(1, "alice")]);
    create_session_at(&mut store, &stored(1, "alice"), 10, 100, 0).unwrap();
    let r = create_session_at(&mut store, &stored(1, "alice"), 11, 100, 0);
    assert_eq!(r, Err(Error::QueryError(UNIQUE_VIOLATION.to_string())));
    assert_eq!(store.session_count(), 1);
}

#[test]
fn token_of_a_live_session_resolves_to_its_owner() {
    let mut store = store_with(&[(1, "alice"), (2, "bob")]);
    create_session_at(&mut store, &stored(2, "bob"), 10, 100, 1_000).unwrap();
    let expiry = 1_000 + SESSION_SECONDS;
    assert_eq!(get_by_token_at(&store, 100, 1_000), Ok(stored(2, "bob")));
    assert_eq!(get_by_token_at(&store, 100, expiry - 1), Ok(stored(2, "bob")));
}

#[test]
fn token_of_an_expired_session_is_session_expired() {
    let mut store = store_with(&[(1, "alice")]);
    create_session_at(&mut store, &stored(1, "alice"), 10, 100, 1_000).unwrap();
    let expiry = 1_000 + SESSION_SECONDS;
    assert_eq!(get_by_token_at(&store, 100, expiry + 1), Err(Error::SessionExpired));
    // a session is valid only while the time is before its expiry
    assert_eq!(get_by_token_at(&store, 100, expiry), Err(Error::SessionExpired));
}

#[test]
fn unknown_token_is_not_found() {
    let mut store = store_with(&[(1, "alice")]);
    create_session_at(&mut store, &stored(1, "alice"), 10, 100, 1_000).unwrap();
    assert_eq!(get_by_token_at(&store, 101, 1_000), Err(Error::NotFound));
    assert_eq!(get_by_token_at(&store, 10, 1_000), Err(Error::NotFound));
    assert_eq!(get_by_token(&Store::new(), 100), Err(Error::NotFound));
}

#[test]
fn fresh_session_resolves_now() {
    let mut store = store_with(&[(1, "alice")]);
    let session = create_session(&mut store, stored(1, "alice")).unwrap();
    assert_eq!(get_by_token(&store, session.token), Ok(stored(1, "alice")));
}

#[test]
fn session_issued_long_ago_is_expired_now() {
    let mut store = store_with(&[(1, "alice")]);
    // issued at the epoch: it expired thirty days later
    create_session_at(&mut store, &stored(1, "alice"), 10, 100, 0).unwrap();
    assert_eq!(get_by_token(&store, 100), Err(Error::SessionExpired));
}

#[test]
fn reaping_removes_exactly_the_expired_sessions() {
    let mut store = store_with(&[(1, "alice"), (2, "bob")]);
    store.insert_session(session(10, 100, 1, 999)).unwrap();
    store.insert_session(session(11, 101, 2, 1_000)).unwrap();
    store.insert_session(session(12, 102, 1, 5_000)).unwrap();
    store.insert_session(session(13, 103, 2, 1)).unwrap();
    assert_eq!(delete_expired_sessions_at(&mut store, 1_000), Ok(2));
    assert_eq!(store.session_count(), 2);
    assert_eq!(store.find_session_by_token(100), None);
    assert_eq!(store.find_session_by_token(103), None);
    assert_eq!(
        store.find_session_by_token(101),
        Some(session(11, 101, 2, 1_000))
    );
    assert_eq!(
        store.find_session_by_token(102),
        Some(session(12, 102, 1, 5_000))
    );
    assert_eq!(store.user_count(), 2);
}

#[test]
fn second_reaping_removes_nothing() {
    let mut store = store_with(&[(1, "alice")]);
    store.insert_session(session(10, 100, 1, 999)).unwrap();
    store.insert_session(session(12, 102, 1, 5_000)).unwrap();
    assert_eq!(delete_expired_sessions_at(&mut store, 1_000), Ok(1));
    assert_eq!(delete_expired_sessions_at(&mut store, 1_000), Ok(0));
    assert_eq!(store.session_count(), 1);
}

#[test]
fn reaping_by_the_clock_spares_fresh_sessions() {
    let mut store = store_with(&[(1, "alice")]);
    let fresh = create_session(&mut store, stored(1, "alice")).unwrap();
    create_session_at(&mut store, &stored(1, "alice"), 10, 100, 0).unwrap();
    create_session_at(&mut store, &stored(1, "alice"), 11, 101, 1_000).unwrap();
    assert_eq!(delete_expired_sessions(&mut store), Ok(2));
    assert_eq!(delete_expired_sessions(&mut store), Ok(0));
    assert_eq!(store.session_count(), 1);
    assert_eq!(store.find_session_by_token(fresh.token), Some(fresh));
}

#[test]
fn reaping_an_empty_store_removes_nothing() {
    let mut store = Store::new();
    assert_eq!(delete_expired_sessions(&mut store), Ok(0));
    assert_eq!(delete_expired_sessions_at(&mut store, i64::MAX), Ok(0));
}
