use cosmos::state::State;
use cosmos::store::Store;
use cosmos::users::handlers::{
    create_user, error, CreateUserData, ErrorResponse, Session, User, ALREADY_TAKEN, INVALID_DATA,
};
use cosmos::users::models;
use cosmos::users::models::{Error, UserSession, SESSION_SECONDS};

fn data(username: &str, email: &str, password: &str) -> CreateUserData {
    CreateUserData {
        username: username.to_string(),
        email: email.to_string(),
        password: password.to_string(),
    }
}

fn stored(id: u128) -> models::User {
    models::User {
        id,
        username: "alice".to_string(),
        email: "alice@example.com".to_string(),
        password: "h".to_string(),
        active: false,
    }
}

fn unix_seconds() -> i64 {
    std::time::SystemTime::now().duration_since(std::time::UNIX_EPOCH).unwrap().as_secs() as i64
}

#[test]
fn sent_account_has_a_hyphenated_id_and_no_hash() {
    let sent = User::from_model(stored(0xa1a2a3a4_b1b2_c1c2_d1d2_d3d4d5d6d7d8));
    assert_eq!(
        sent,
        User {
            id: "a1a2a3a4-b1b2-c1c2-d1d2-d3d4d5d6d7d8".to_string(),
            username: "alice".to_string(),
            email: "alice@example.com".to_string(),
            active: false,
        }
    );
}

#[test]
fn sent_id_keeps_leading_zeros() {
    assert_eq!(User::from_model(stored(0)).id, "00000000-0000-0000-0000-000000000000");
    assert_eq!(User::from_model(stored(0x1f)).id, "00000000-0000-0000-0000-00000000001f");
    assert_eq!(User::from_model(stored(u128::MAX)).id, "ffffffff-ffff-ffff-ffff-ffffffffffff");
    assert_eq!(
        User::from_model(stored(0x0123456789abcdef_0123456789abcdef)).id,
        "01234567-89ab-cdef-0123-456789abcdef"
    );
}

#[test]
fn sent_session_carries_token_expiry_and_owner() {
    let session = UserSession { id: 1, token: 0x10, user_id: 7, expires_at: 1_234_567 };
    let sent = Session::from_model(stored(7), session);
    assert_eq!(sent.token, "00000000-0000-0000-0000-000000000010");
    assert_eq!(sent.expires_at, 1_234_567);
    assert_eq!(sent.user, User::from_model(stored(7)));
}

#[test]
fn errors_are_answered_by_status_and_text() {
    assert_eq!(
        error(Error::InvalidInput("bad".to_string())),
        (400, ErrorResponse { error: "bad".to_string() })
    );
    assert_eq!(
        error(Error::Conflict("taken".to_string())),
        (409, ErrorResponse { error: "taken".to_string() })
    );
    assert_eq!(
        error(Error::Unauthorized),
        (401, ErrorResponse { error: "invalid username or password".to_string() })
    );
    assert_eq!(
        error(Error::NotFound),
        (404, ErrorResponse { error: "session not found".to_string() })
    );
    assert_eq!(
        error(Error::SessionExpired),
        (401, ErrorResponse { error: "session expired".to_string() })
    );
    assert_eq!(
        error(Error::HashingFailure("salt".to_string())),
        (500, ErrorResponse { error: "salt".to_string() })
    );
    assert_eq!(
        error(Error::QueryError("down".to_string())),
        (500, ErrorResponse { error: "down".to_string() })
    );
}

#[test]
fn registering_answers_with_a_session() {
    let mut state = State { db: Store::new() };
    let before = unix_seconds();
    let sent =
        create_user(&mut state, data("alice", "alice@example.com", "correct horse")).unwrap();
    let after = unix_seconds();
    assert_eq!(sent.user.username, "alice");
    assert_eq!(sent.user.email, "alice@example.com");
    assert!(!sent.user.active);
    assert!(before + SESSION_SECONDS <= sent.expires_at);
    assert!(sent.expires_at <= after + SESSION_SECONDS);
    assert_eq!(state.db.user_count(), 1);
    assert_eq!(state.db.session_count(), 1);
    let token = uuid::Uuid::parse_str(&sent.token).unwrap().as_u128();
    let owner = models::get_by_token(&state.db, token).unwrap();
    assert_eq!(User::from_model(owner), sent.user);
}

#[test]
fn registering_with_bad_data_is_refused() {
    let mut state = State { db: Store::new() };
    let r = create_user(&mut state, data("a", "alice@example.com", "correct horse"));
    assert_eq!(r, Err(Error::InvalidInput(INVALID_DATA.to_string())));
    assert_eq!(state.db.user_count(), 0);
    assert_eq!(state.db.session_count(), 0);
}

#[test]
fn registering_a_taken_username_is_refused() {
    let mut state = State { db: Store::new() };
    state.db.insert_user(stored(1)).unwrap();
    let r = create_user(&mut state, data("alice", "other@example.com", "correct horse"));
    assert_eq!(r, Err(Error::Conflict(ALREADY_TAKEN.to_string())));
    assert_eq!(state.db.user_count(), 1);
    assert_eq!(state.db.session_count(), 0);
}
