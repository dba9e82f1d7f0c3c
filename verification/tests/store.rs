use cosmos::store::{Store, FOREIGN_KEY_VIOLATION, UNIQUE_VIOLATION};
use cosmos::users::models::{Error, User, UserSession};

fn user(id: u128, username: &str, email: &str) -> User {
    User {
        id,
        username: username.to_string(),
        email: email.to_string(),
        password: format!("hash-of-{}", username),
        active: false,
    }
}

fn session(id: u128, token: u128, user_id: u128, expires_at: i64) -> UserSession {
    UserSession { id, token, user_id, expires_at }
}

fn unique_violation() -> Error {
    Error::QueryError(UNIQUE_VIOLATION.to_string())
}

#[test]
fn new_store_is_empty() {
    let store = Store::new();
    assert_eq!(store.user_count(), 0);
    assert_eq!(store.session_count(), 0);
    assert_eq!(store.find_user_by_id(1), None);
    assert_eq!(store.find_session_by_token(1), None);
}

#[test]
fn inserted_user_is_found_by_id_username_and_email() {
    let mut store = Store::new();
    assert_eq!(store.insert_user(user(1, "alice", "alice@example.com")), Ok(()));
    assert_eq!(store.user_count(), 1);
    let expected = user(1, "alice", "alice@example.com");
    assert_eq!(store.find_user_by_id(1), Some(user(1, "alice", "alice@example.com")));
    assert_eq!(
        store.find_user_by_login(&"alice".to_string()),
        Some(user(1, "alice", "alice@example.com"))
    );
    assert_eq!(store.find_user_by_login(&"alice@example.com".to_string()), Some(expected));
    assert_eq!(store.find_user_by_login(&"Alice".to_string()), None);
    assert_eq!(store.find_user_by_id(2), None);
}

#[test]
fn insert_user_refuses_a_taken_id_username_or_email() {
    let mut store = Store::new();
    store.insert_user(user(1, "alice", "alice@example.com")).unwrap();
    assert_eq!(store.insert_user(user(1, "bob", "bob@example.com")), Err(unique_violation()));
    assert_eq!(store.insert_user(user(2, "alice", "bob@example.com")), Err(unique_violation()));
    assert_eq!(store.insert_user(user(2, "bob", "alice@example.com")), Err(unique_violation()));
    assert_eq!(store.user_count(), 1);
    assert_eq!(store.insert_user(user(2, "bob", "bob@example.com")), Ok(()));
    assert_eq!(store.user_count(), 2);
}

#[test]
fn usernames_are_compared_letter_for_letter() {
    let mut store = Store::new();
    store.insert_user(user(1, "alice", "alice@example.com")).unwrap();
    assert_eq!(store.insert_user(user(2, "Alice", "Alice@example.com")), Ok(()));
    assert_eq!(store.user_count(), 2);
}

#[test]
fn login_selects_the_first_account_that_answers() {
    let mut store = Store::new();
    store.insert_user(user(1, "alice", "shared")).unwrap();
    store.insert_user(user(2, "shared", "bob@example.com")).unwrap();
    let found = store.find_user_by_login(&"shared".to_string()).unwrap();
    assert_eq!(found.id, 1);
}

#[test]
fn holders_are_found_in_the_order_of_insertion() {
    let mut store = Store::new();
    store.insert_user(user(1, "alice", "alice@example.com")).unwrap();
    store.insert_user(user(2, "bob", "bob@example.com")).unwrap();
    store.insert_user(user(3, "carol", "carol@example.com")).unwrap();
    let found = store.find_users_holding(&"carol".to_string(), &"alice@example.com".to_string());
    assert_eq!(
        found,
        vec![user(1, "alice", "alice@example.com"), user(3, "carol", "carol@example.com")]
    );
    let none = store.find_users_holding(&"dave".to_string(), &"dave@example.com".to_string());
    assert_eq!(none, vec![]);
}

#[test]
fn insert_session_needs_a_stored_owner() {
    let mut store = Store::new();
    assert_eq!(
        store.insert_session(session(10, 100, 1, 50)),
        Err(Error::QueryError(FOREIGN_KEY_VIOLATION.to_string()))
    );
    assert_eq!(store.session_count(), 0);
    store.insert_user(user(1, "alice", "alice@example.com")).unwrap();
    assert_eq!(store.insert_session(session(10, 100, 1, 50)), Ok(()));
    assert_eq!(store.session_count(), 1);
    assert_eq!(store.find_session_by_token(100), Some(session(10, 100, 1, 50)));
    assert_eq!(store.find_session_by_token(10), None);
}

#[test]
fn insert_session_refuses_a_taken_id_or_token() {
    let mut store = Store::new();
    store.insert_user(user(1, "alice", "alice@example.com")).unwrap();
    store.insert_session(session(10, 100, 1, 50)).unwrap();
    assert_eq!(store.insert_session(session(10, 101, 1, 50)), Err(unique_violation()));
    assert_eq!(store.insert_session(session(11, 100, 1, 50)), Err(unique_violation()));
    // a taken token is reported before a missing owner
    assert_eq!(store.insert_session(session(11, 100, 9, 50)), Err(unique_violation()));
    assert_eq!(store.session_count(), 1);
    assert_eq!(store.insert_session(session(11, 101, 1, 50)), Ok(()));
    assert_eq!(store.session_count(), 2);
}

#[test]
fn update_user_changes_email_and_hash_only() {
    let mut store = Store::new();
    store.insert_user(user(1, "alice", "alice@example.com")).unwrap();
    store.insert_user(user(2, "bob", "bob@example.com")).unwrap();
    assert_eq!(store.update_user(1, "new@example.com".to_string(), "new-hash".to_string()), Ok(1));
    let changed = store.find_user_by_id(1).unwrap();
    assert_eq!(
        changed,
        User {
            id: 1,
            username: "alice".to_string(),
            email: "new@example.com".to_string(),
            password: "new-hash".to_string(),
            active: false,
        }
    );
    assert_eq!(store.find_user_by_id(2), Some(user(2, "bob", "bob@example.com")));
    // the order of insertion stays
    let both = store.find_users_holding(&"alice".to_string(), &"bob@example.com".to_string());
    assert_eq!(both[0].id, 1);
    assert_eq!(both[1].id, 2);
}

#[test]
fn update_user_of_an_unknown_id_changes_nothing() {
    let mut store = Store::new();
    store.insert_user(user(1, "alice", "alice@example.com")).unwrap();
    assert_eq!(store.update_user(7, "alice@example.com".to_string(), "h".to_string()), Ok(0));
    assert_eq!(store.find_user_by_id(1), Some(user(1, "alice", "alice@example.com")));
}

#[test]
fn update_user_refuses_the_email_of_another_account() {
    let mut store = Store::new();
    store.insert_user(user(1, "alice", "alice@example.com")).unwrap();
    store.insert_user(user(2, "bob", "bob@example.com")).unwrap();
    assert_eq!(
        store.update_user(1, "bob@example.com".to_string(), "h".to_string()),
        Err(unique_violation())
    );
    assert_eq!(store.find_user_by_id(1), Some(user(1, "alice", "alice@example.com")));
    // its own email is no obstacle
    assert_eq!(store.update_user(1, "alice@example.com".to_string(), "h".to_string()), Ok(1));
}

#[test]
fn delete_user_takes_its_sessions_along() {
    let mut store = Store::new();
    store.insert_user(user(1, "alice", "alice@example.com")).unwrap();
    store.insert_user(user(2, "bob", "bob@example.com")).unwrap();
    store.insert_session(session(10, 100, 1, 50)).unwrap();
    store.insert_session(session(11, 101, 2, 50)).unwrap();
    store.insert_session(session(12, 102, 1, 50)).unwrap();
    assert_eq!(store.delete_user(1), 1);
    assert_eq!(store.user_count(), 1);
    assert_eq!(store.session_count(), 1);
    assert_eq!(store.find_user_by_id(1), None);
    assert_eq!(store.find_session_by_token(100), None);
    assert_eq!(store.find_session_by_token(102), None);
    assert_eq!(store.find_session_by_token(101), Some(session(11, 101, 2, 50)));
    assert_eq!(store.delete_user(1), 0);
    assert_eq!(store.user_count(), 1);
    assert_eq!(store.session_count(), 1);
}

#[test]
fn delete_sessions_before_removes_the_expired_ones_only() {
    let mut store = Store::new();
    store.insert_user(user(1, "alice", "alice@example.com")).unwrap();
    store.insert_session(session(10, 100, 1, 49)).unwrap();
    store.insert_session(session(11, 101, 1, 50)).unwrap();
    store.insert_session(session(12, 102, 1, 51)).unwrap();
    store.insert_session(session(13, 103, 1, -5)).unwrap();
    assert_eq!(store.delete_sessions_before(50), 2);
    assert_eq!(store.session_count(), 2);
    assert_eq!(store.find_session_by_token(100), None);
    assert_eq!(store.find_session_by_token(103), None);
    assert_eq!(store.find_session_by_token(101), Some(session(11, 101, 1, 50)));
    assert_eq!(store.find_session_by_token(102), Some(session(12, 102, 1, 51)));
    assert_eq!(store.user_count(), 1);
}
