//! The entry point that registers a user: validation, the check for a taken
//! username or email, the new account, its first session, and the shapes
//! of the answers.

use crate::clock::CLOCK_LIMIT;
use crate::ident::{hyphenated, is_random_uuid, uuid_text};
use crate::pattern::{regex_is_match, regex_search};
use crate::state::State;
use crate::store::{Store, StoreView, UNIQUE_VIOLATION};
use crate::users::models;
use crate::users::models::{Error, ErrorView, UserSession, UserView};
use vstd::prelude::*;

verus! {

/// A username has two word characters in a row somewhere.
pub const USERNAME_PATTERN: &'static str = "[a-zA-Z0-9_]{2,}";

/// An email has an `@` with something before it, and after it something, a
/// dot and something more.
pub const EMAIL_PATTERN: &'static str = ".+@.+\\..+";

/// The least number of characters of a password.
pub const MIN_PASSWORD_CHARS: usize = 8;

/// The text of the error for data that does not pass validation.
pub const INVALID_DATA: &'static str = "invalid user data provided";

/// The text of the error for a username or an email that is taken.
pub const ALREADY_TAKEN: &'static str = "email or username already taken";

/// The text sent for `Unauthorized`: it does not tell an unknown identifier
/// from a wrong password.
pub const BAD_CREDENTIALS: &'static str = "invalid username or password";

/// The text sent for `NotFound`.
pub const NO_SESSION: &'static str = "session not found";

/// The text sent for `SessionExpired`.
pub const EXPIRED_SESSION: &'static str = "session expired";

/// The data submitted to register a user.
#[derive(Debug, PartialEq, Eq)]
pub struct CreateUserData {
    pub username: String,
    pub email: String,
    pub password: String,
}

/// Whether submitted data passes validation: the username and the email
/// match their patterns and the password has `MIN_PASSWORD_CHARS`
/// characters or more.
pub open spec fn valid_user_data(
    username: Seq<char>,
    email: Seq<char>,
    password: Seq<char>,
) -> bool {
    &&& regex_search(USERNAME_PATTERN@, username) == Some(true)
    &&& regex_search(EMAIL_PATTERN@, email) == Some(true)
    &&& password.len() >= MIN_PASSWORD_CHARS
}

/// The verdict on submitted data, from what the two pattern searches found
/// and the number of characters of the password.
pub fn acceptable(
    username_found: Option<bool>,
    email_found: Option<bool>,
    password_chars: usize,
) -> (ok: bool)
    ensures
        ok == (username_found == Some(true) && email_found == Some(true) && password_chars
            >= MIN_PASSWORD_CHARS),
{
    let username_ok = match username_found {
        Some(found) => found,
        None => false,
    };
    let email_ok = match email_found {
        Some(found) => found,
        None => false,
    };
    username_ok && email_ok && password_chars >= MIN_PASSWORD_CHARS
}

impl CreateUserData {
    /// Whether the data passes validation.
    pub fn is_valid(&self) -> (valid: bool)
        ensures
            valid == valid_user_data(self.username@, self.email@, self.password@),
    {
        acceptable(
            regex_is_match(USERNAME_PATTERN, self.username.as_str()),
            regex_is_match(EMAIL_PATTERN, self.email.as_str()),
            self.password.as_str().unicode_len(),
        )
    }
}

/// Whether `r` and `after` are what registering an account with the given
/// data ends in, on the store `before`. Data that does not pass validation
/// gives `InvalidInput`, and a username or an email that a stored account
/// holds gives `Conflict`, both with the store untouched. Else the account
/// is created.
pub open spec fn registration_outcome(
    before: StoreView,
    username: Seq<char>,
    email: Seq<char>,
    password: Seq<char>,
    r: Result<UserView, ErrorView>,
    after: StoreView,
) -> bool {
    if !valid_user_data(username, email, password) {
        r == Err::<UserView, ErrorView>(ErrorView::InvalidInput(INVALID_DATA@)) && after == before
    } else if before.users_holding(username, email).len() > 0 {
        r == Err::<UserView, ErrorView>(ErrorView::Conflict(ALREADY_TAKEN@)) && after == before
    } else {
        models::creation_outcome(before, username, email, password, r, after)
    }
}

/// Registers an account: validates the data, refuses a username or an email
/// that is taken, and creates the account.
pub fn create_account(store: &mut Store, data: CreateUserData) -> (r: Result<models::User, Error>)
    ensures
        old(store)@.well_formed(),
        final(store)@.well_formed(),
        registration_outcome(
            old(store)@,
            data.username@,
            data.email@,
            data.password@,
            models::user_outcome(r),
            final(store)@,
        ),
{
    proof {
        use_type_invariant(&*store);
    }
    if !data.is_valid() {
        return Err(Error::InvalidInput(INVALID_DATA.to_owned()));
    }
    let holders = store.find_users_holding(&data.username, &data.email);
    if holders.len() > 0 {
        return Err(Error::Conflict(ALREADY_TAKEN.to_owned()));
    }
    models::create_user(store, data.username, data.email, data.password)
}

/// An account as it is sent: without the password hash, the id as text.
#[derive(Debug, PartialEq, Eq)]
pub struct User {
    pub id: String,
    pub username: String,
    pub email: String,
    pub active: bool,
}

/// A sent account with its texts as sequences of characters.
pub struct SentUser {
    pub id: Seq<char>,
    pub username: Seq<char>,
    pub email: Seq<char>,
    pub active: bool,
}

impl View for User {
    type V = SentUser;

    open spec fn view(&self) -> SentUser {
        SentUser {
            id: self.id@,
            username: self.username@,
            email: self.email@,
            active: self.active,
        }
    }
}

/// What is sent of an account.
pub open spec fn sent_user(model: UserView) -> SentUser {
    SentUser {
        id: hyphenated(model.id),
        username: model.username,
        email: model.email,
        active: model.active,
    }
}

impl User {
    /// What is sent of an account: all but the password hash, the id in its
    /// hyphenated form.
    pub fn from_model(model: models::User) -> (sent: User)
        ensures
            sent@ == sent_user(model@),
    {
        User {
            id: uuid_text(model.id),
            username: model.username,
            email: model.email,
            active: model.active,
        }
    }
}

/// A session as it is sent: the token as text, the expiry in seconds since
/// the Unix epoch, and the account that owns it.
#[derive(Debug, PartialEq, Eq)]
pub struct Session {
    pub token: String,
    pub expires_at: i64,
    pub user: User,
}

/// A sent session with its texts as sequences of characters.
pub struct SentSession {
    pub token: Seq<char>,
    pub expires_at: i64,
    pub user: SentUser,
}

impl View for Session {
    type V = SentSession;

    open spec fn view(&self) -> SentSession {
        SentSession { token: self.token@, expires_at: self.expires_at, user: self.user@ }
    }
}

/// What is sent of a session and its owner.
pub open spec fn sent_session(user: UserView, session: UserSession) -> SentSession {
    SentSession {
        token: hyphenated(session.token),
        expires_at: session.expires_at,
        user: sent_user(user),
    }
}

impl Session {
    /// What is sent of a session and its owner: the token in its hyphenated
    /// form, the expiry, and what is sent of the account.
    pub fn from_model(user: models::User, session: UserSession) -> (sent: Session)
        ensures
            sent@ == sent_session(user@, session),
    {
        Session {
            token: uuid_text(session.token),
            expires_at: session.expires_at,
            user: User::from_model(user),
        }
    }
}

/// The body of an answer that reports an error.
#[derive(Debug, PartialEq, Eq)]
pub struct ErrorResponse {
    pub error: String,
}

/// The status code that answers an error: 400 for bad input, 409 for a
/// conflict, 401 for bad credentials and for an expired session, 404 for
/// an unknown token, 500 for a failure of the hash function or the store.
pub open spec fn status_of(e: ErrorView) -> u16 {
    match e {
        ErrorView::InvalidInput(_) => 400,
        ErrorView::Conflict(_) => 409,
        ErrorView::Unauthorized => 401,
        ErrorView::NotFound => 404,
        ErrorView::SessionExpired => 401,
        ErrorView::HashingFailure(_) => 500,
        ErrorView::QueryError(_) => 500,
    }
}

/// The text that answers an error: the one it carries, or the fixed text of
/// its kind.
pub open spec fn message_of(e: ErrorView) -> Seq<char> {
    match e {
        ErrorView::InvalidInput(m) => m,
        ErrorView::Conflict(m) => m,
        ErrorView::Unauthorized => BAD_CREDENTIALS@,
        ErrorView::NotFound => NO_SESSION@,
        ErrorView::SessionExpired => EXPIRED_SESSION@,
        ErrorView::HashingFailure(m) => m,
        ErrorView::QueryError(m) => m,
    }
}

/// The answer to a failed request: its status code and its body.
pub fn error(err: Error) -> (answer: (u16, ErrorResponse))
    ensures
        answer.0 == status_of(err@),
        answer.1.error@ == message_of(err@),
{
    let (status, msg): (u16, String) = match err {
        Error::InvalidInput(m) => (400, m),
        Error::Conflict(m) => (409, m),
        Error::Unauthorized => (401, BAD_CREDENTIALS.to_owned()),
        Error::NotFound => (404, NO_SESSION.to_owned()),
        Error::SessionExpired => (401, EXPIRED_SESSION.to_owned()),
        Error::HashingFailure(m) => (500, m),
        Error::QueryError(m) => (500, m),
    };
    (status, ErrorResponse { error: msg })
}

/// A result that carries a sent session, by its views.
pub open spec fn sent_outcome(r: Result<Session, Error>) -> Result<SentSession, ErrorView> {
    match r {
        Ok(s) => Ok(s@),
        Err(e) => Err(e@),
    }
}

/// Whether `r` and `after` are what a request to register a user ends in,
/// on the store `before`. Where the account cannot be registered, the error
/// and the store are those of `registration_outcome`. Where it is, a
/// session is issued for it: with a random id and token, expiring
/// `SESSION_SECONDS` after a time that the clock gave. The answer is what
/// is sent of the session and the account, and the store holds both; or
/// the store refused the session, and holds the account alone.
pub open spec fn signup_outcome(
    before: StoreView,
    username: Seq<char>,
    email: Seq<char>,
    password: Seq<char>,
    r: Result<SentSession, ErrorView>,
    after: StoreView,
) -> bool {
    ||| r matches Err(e) && registration_outcome(
        before,
        username,
        email,
        password,
        Err(e),
        after,
    )
    ||| exists|u: UserView, id: u128, token: u128, now: i64| #[trigger]
        signup_steps(before, username, email, password, u, id, token, now, r, after)
}

/// The second case of `signup_outcome`, for the account `u` and a session
/// with the given id and token, issued at `now`.
pub open spec fn signup_steps(
    before: StoreView,
    username: Seq<char>,
    email: Seq<char>,
    password: Seq<char>,
    u: UserView,
    id: u128,
    token: u128,
    now: i64,
    r: Result<SentSession, ErrorView>,
    after: StoreView,
) -> bool {
    let between = before.with_user(u);
    let session = models::new_session(id, token, u.id, now);
    &&& registration_outcome(before, username, email, password, Ok(u), between)
    &&& is_random_uuid(id)
    &&& is_random_uuid(token)
    &&& 0 <= now < CLOCK_LIMIT
    &&& if between.session_taken(session) {
        r == Err::<SentSession, ErrorView>(ErrorView::QueryError(UNIQUE_VIOLATION@)) && after
            == between
    } else {
        r == Ok::<SentSession, ErrorView>(sent_session(u, session)) && after
            == between.with_session(session)
    }
}

/// Answers a request to register a user: registers the account, issues its
/// first session, and returns what is sent of both.
pub fn create_user(state: &mut State, data: CreateUserData) -> (r: Result<Session, Error>)
    ensures
        signup_outcome(
            old(state).db@,
            data.username@,
            data.email@,
            data.password@,
            sent_outcome(r),
            final(state).db@,
        ),
{
    let ghost before = state.db@;
    let user = match create_account(&mut state.db, data) {
        Ok(user) => user,
        Err(e) => {
            return Err(e);
        },
    };
    let ghost between = state.db@;
    let ghost u = user@;
    match models::create_session(&mut state.db, user.clone()) {
        Ok(session) => {
            let sent = Session::from_model(user, session);
            proof {
                let (id, token, now) = choose|id: u128, token: u128, now: i64|
                    is_random_uuid(id) && is_random_uuid(token) && 0 <= now < CLOCK_LIMIT
                        && #[trigger] models::issue_outcome(
                        between,
                        models::new_session(id, token, u.id, now),
                        Ok(session),
                        state.db@,
                    );
                assert(signup_steps(
                    before,
                    data.username@,
                    data.email@,
                    data.password@,
                    u,
                    id,
                    token,
                    now,
                    Ok(sent@),
                    state.db@,
                ));
            }
            Ok(sent)
        },
        Err(e) => {
            proof {
                let (id, token, now) = choose|id: u128, token: u128, now: i64|
                    is_random_uuid(id) && is_random_uuid(token) && 0 <= now < CLOCK_LIMIT
                        && #[trigger] models::issue_outcome(
                        between,
                        models::new_session(id, token, u.id, now),
                        Err(e@),
                        state.db@,
                    );
                assert(between.has_user(u.id)) by {
                    assert(between.users[between.users.len() - 1].id == u.id);
                }
                assert(signup_steps(
                    before,
                    data.username@,
                    data.email@,
                    data.password@,
                    u,
                    id,
                    token,
                    now,
                    Err(e@),
                    state.db@,
                ));
            }
            Err(e)
        },
    }
}

} // verus!
