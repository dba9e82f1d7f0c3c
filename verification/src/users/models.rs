//! Account and session records, the errors of the operations on them, and
//! the operations themselves.

use crate::clock::{unix_now, CLOCK_LIMIT};
use crate::ident::{is_random_uuid, random_uuid};
use crate::password::{bcrypt_error_text, bcrypt_hash, bcrypt_verdict, bcrypt_verify};
use crate::store::{Store, StoreView, FOREIGN_KEY_VIOLATION, UNIQUE_VIOLATION};
use vstd::prelude::*;

verus! {

/// How long a session is valid: 30 days, in seconds.
pub const SESSION_SECONDS: i64 = 2_592_000;

/// What can go wrong in an operation on accounts or sessions.
#[derive(Debug, PartialEq, Eq)]
pub enum Error {
    /// The submitted data did not pass validation.
    InvalidInput(String),
    /// The username or the email belongs to another account.
    Conflict(String),
    /// No account matches the identifier, or the password is wrong.
    Unauthorized,
    /// No session carries the token.
    NotFound,
    /// The session's validity has ended.
    SessionExpired,
    /// The hash function itself failed.
    HashingFailure(String),
    /// The store refused or failed an operation.
    QueryError(String),
}

/// An `Error` with its texts as sequences of characters.
pub enum ErrorView {
    InvalidInput(Seq<char>),
    Conflict(Seq<char>),
    Unauthorized,
    NotFound,
    SessionExpired,
    HashingFailure(Seq<char>),
    QueryError(Seq<char>),
}

impl View for Error {
    type V = ErrorView;

    open spec fn view(&self) -> ErrorView {
        match self {
            Error::InvalidInput(m) => ErrorView::InvalidInput(m@),
            Error::Conflict(m) => ErrorView::Conflict(m@),
            Error::Unauthorized => ErrorView::Unauthorized,
            Error::NotFound => ErrorView::NotFound,
            Error::SessionExpired => ErrorView::SessionExpired,
            Error::HashingFailure(m) => ErrorView::HashingFailure(m@),
            Error::QueryError(m) => ErrorView::QueryError(m@),
        }
    }
}

/// An account as it is stored.
#[derive(Debug, PartialEq, Eq)]
pub struct User {
    pub id: u128,
    pub username: String,
    pub email: String,
    /// The salted hash of the password, never the password itself.
    pub password: String,
    pub active: bool,
}

/// A `User` with its texts as sequences of characters.
pub struct UserView {
    pub id: u128,
    pub username: Seq<char>,
    pub email: Seq<char>,
    pub password: Seq<char>,
    pub active: bool,
}

impl View for User {
    type V = UserView;

    open spec fn view(&self) -> UserView {
        UserView {
            id: self.id,
            username: self.username@,
            email: self.email@,
            password: self.password@,
            active: self.active,
        }
    }
}

impl Clone for User {
    fn clone(&self) -> (copy: User)
        ensures
            copy == *self,
    {
        User {
            id: self.id,
            username: self.username.clone(),
            email: self.email.clone(),
            password: self.password.clone(),
            active: self.active,
        }
    }
}

/// A session as it is stored: a bearer token, its owner and its expiry in
/// seconds since the Unix epoch.
#[derive(Clone, Copy, Debug, PartialEq, Eq, Structural)]
pub struct UserSession {
    pub id: u128,
    pub token: u128,
    pub user_id: u128,
    pub expires_at: i64,
}

/// The outcome of an operation with its texts as sequences of characters.
pub open spec fn user_outcome(r: Result<User, Error>) -> Result<UserView, ErrorView> {
    match r {
        Ok(u) => Ok(u@),
        Err(e) => Err(e@),
    }
}

/// The outcome of an operation that counts rows, its error by its view.
pub open spec fn count_outcome(r: Result<usize, Error>) -> Result<usize, ErrorView> {
    match r {
        Ok(n) => Ok(n),
        Err(e) => Err(e@),
    }
}

/// The outcome of an operation that yields a session, its error by its view.
pub open spec fn session_outcome(r: Result<UserSession, Error>) -> Result<UserSession, ErrorView> {
    match r {
        Ok(s) => Ok(s),
        Err(e) => Err(e@),
    }
}

/// The account that `create_user` stores for the given data once the
/// password is hashed and the id is drawn: inactive.
pub open spec fn new_user(
    id: u128,
    username: Seq<char>,
    email: Seq<char>,
    password_hash: Seq<char>,
) -> UserView {
    UserView { id: id, username: username, email: email, password: password_hash, active: false }
}

/// Hashes a password. An error of the hash function becomes a
/// `HashingFailure`; a hash that comes back is one that the password
/// verifies against.
pub fn hash_password(password: &String) -> (r: Result<String, Error>)
    ensures
        match r {
            Ok(h) => bcrypt_verdict(password@, h@) == Some(true),
            Err(e) => e@ is HashingFailure,
        },
{
    match bcrypt_hash(password.as_str()) {
        Ok(h) => Ok(h),
        Err(err) => Err(Error::HashingFailure(bcrypt_error_text(&err))),
    }
}

/// Whether `r` and `after` are what the store answers and becomes when the
/// account `u` is to be inserted: it is stored and returned, or it clashes
/// with a stored account and the store refuses it.
pub open spec fn store_outcome(
    before: StoreView,
    u: UserView,
    r: Result<UserView, ErrorView>,
    after: StoreView,
) -> bool {
    if before.accepts_user(u) {
        r == Ok::<UserView, ErrorView>(u) && after == before.with_user(u)
    } else {
        r == Err::<UserView, ErrorView>(ErrorView::QueryError(UNIQUE_VIOLATION@)) && after == before
    }
}

/// Stores a new, inactive account with the given id and password hash, and
/// returns it. The store refuses it, and stays as it was, exactly when the
/// account clashes with a stored one.
pub fn store_user(
    store: &mut Store,
    id: u128,
    username: String,
    email: String,
    password_hash: String,
) -> (r: Result<User, Error>)
    ensures
        old(store)@.well_formed(),
        final(store)@.well_formed(),
        store_outcome(
            old(store)@,
            new_user(id, username@, email@, password_hash@),
            user_outcome(r),
            final(store)@,
        ),
{
    let user = User {
        id: id,
        username: username,
        email: email,
        password: password_hash,
        active: false,
    };
    match store.insert_user(user.clone()) {
        Ok(_) => Ok(user),
        Err(e) => Err(e),
    }
}

/// Whether `r` and `after` are what creating an account ends in. The hash
/// function fails, and the store is untouched; or it gives a hash that the
/// password verifies against, a random id is drawn, and the store is asked
/// to insert the inactive account made of them.
pub open spec fn creation_outcome(
    before: StoreView,
    username: Seq<char>,
    email: Seq<char>,
    password: Seq<char>,
    r: Result<UserView, ErrorView>,
    after: StoreView,
) -> bool {
    ||| r matches Err(e) && e is HashingFailure && after == before
    ||| exists|id: u128, password_hash: Seq<char>|
        is_random_uuid(id) && bcrypt_verdict(password, password_hash) == Some(true)
            && #[trigger] store_outcome(
            before,
            new_user(id, username, email, password_hash),
            r,
            after,
        )
}

/// Creates an account: hashes the password, draws a random id and stores
/// the account, inactive. Validation and the check for a taken username or
/// email are the caller's.
pub fn create_user(store: &mut Store, username: String, email: String, password: String) -> (r:
    Result<User, Error>)
    ensures
        old(store)@.well_formed(),
        final(store)@.well_formed(),
        creation_outcome(
            old(store)@,
            username@,
            email@,
            password@,
            user_outcome(r),
            final(store)@,
        ),
{
    let password_hash = match hash_password(&password) {
        Ok(h) => h,
        Err(e) => {
            proof {
                use_type_invariant(&*store);
            }
            return Err(e);
        },
    };
    let id = random_uuid();
    store_user(store, id, username, email, password_hash)
}

/// What a login ends in once the account is found and the password was
/// checked against its hash: the account for a password that verifies,
/// `Unauthorized` for one that does not, and `HashingFailure` with the
/// detail where the check itself failed.
pub fn settle_login(user: User, verdict: Result<bool, String>) -> (r: Result<User, Error>)
    ensures
        user_outcome(r) == match verdict {
            Ok(true) => Ok(user@),
            Ok(false) => Err(ErrorView::Unauthorized),
            Err(detail) => Err(ErrorView::HashingFailure(detail@)),
        },
{
    match verdict {
        Ok(true) => Ok(user),
        Ok(false) => Err(Error::Unauthorized),
        Err(detail) => Err(Error::HashingFailure(detail)),
    }
}

/// Whether `r` is what a login with the given identifier and password ends
/// in: `Unauthorized` where no account answers to the identifier; else the
/// first such account where the password verifies against its hash,
/// `Unauthorized` where it does not, and a `HashingFailure` where the hash
/// function fails on the stored hash.
pub open spec fn login_outcome(
    store: StoreView,
    identifier: Seq<char>,
    password: Seq<char>,
    r: Result<UserView, ErrorView>,
) -> bool {
    match store.login_candidate(identifier) {
        None => r == Err::<UserView, ErrorView>(ErrorView::Unauthorized),
        Some(u) => match bcrypt_verdict(password, u.password) {
            Some(true) => r == Ok::<UserView, ErrorView>(u),
            Some(false) => r == Err::<UserView, ErrorView>(ErrorView::Unauthorized),
            None => r is Err && r->Err_0 is HashingFailure,
        },
    }
}

/// Logs in with a username or an email and a password.
pub fn get_by_login_details(store: &Store, username_or_email: String, raw_password: String) -> (r:
    Result<User, Error>)
    ensures
        store@.well_formed(),
        login_outcome(store@, username_or_email@, raw_password@, user_outcome(r)),
{
    match store.find_user_by_login(&username_or_email) {
        None => Err(Error::Unauthorized),
        Some(user) => {
            let verdict = match bcrypt_verify(raw_password.as_str(), user.password.as_str()) {
                Ok(b) => Ok(b),
                Err(err) => Err(bcrypt_error_text(&err)),
            };
            settle_login(user, verdict)
        },
    }
}

/// The new value of a field: the one given, else the current one.
pub open spec fn given_or(given: Option<String>, current: Seq<char>) -> Seq<char> {
    match given {
        Some(g) => g@,
        None => current,
    }
}

/// Updates the email and the password hash of the account with the id of
/// `user`: a field that is not given keeps the value it has in `user`.
/// Returns the number of accounts changed: none where the store has no
/// account with that id. The store refuses the write, and stays as it was,
/// when another account holds the email.
pub fn store_credentials(
    store: &mut Store,
    user: User,
    email: Option<String>,
    password_hash: Option<String>,
) -> (r: Result<usize, Error>)
    ensures
        old(store)@.well_formed(),
        final(store)@.well_formed(),
        credentials_outcome(
            old(store)@,
            user@.id,
            given_or(email, user@.email),
            given_or(password_hash, user@.password),
            count_outcome(r),
            final(store)@,
        ),
{
    let email = match email {
        Some(e) => e,
        None => user.email,
    };
    let password_hash = match password_hash {
        Some(h) => h,
        None => user.password,
    };
    store.update_user(user.id, email, password_hash)
}

/// Whether `r` and `after` are what the store answers and becomes when the
/// account with the given id is to get the given email and password hash.
pub open spec fn credentials_outcome(
    before: StoreView,
    id: u128,
    email: Seq<char>,
    password_hash: Seq<char>,
    r: Result<usize, ErrorView>,
    after: StoreView,
) -> bool {
    if !before.has_user(id) {
        r == Ok::<usize, ErrorView>(0) && after == before
    } else if before.email_held_by_other(id, email) {
        r == Err::<usize, ErrorView>(ErrorView::QueryError(UNIQUE_VIOLATION@)) && after == before
    } else {
        r == Ok::<usize, ErrorView>(1) && after == before.with_credentials(id, email, password_hash)
    }
}

/// Updates the email, the password, or both, of the account with the id of
/// `user`. A new password is hashed once, before the store is touched; a
/// field that is not given keeps the value it has in `user`.
pub fn update_user(
    store: &mut Store,
    user: User,
    email: Option<String>,
    password: Option<String>,
) -> (r: Result<usize, Error>)
    ensures
        old(store)@.well_formed(),
        final(store)@.well_formed(),
        password is None ==> credentials_outcome(
            old(store)@,
            user@.id,
            given_or(email, user@.email),
            user@.password,
            count_outcome(r),
            final(store)@,
        ),
        password is Some ==> (r matches Err(e) && e@ is HashingFailure && final(store)@ == old(
            store,
        )@) || (exists|h: Seq<char>|
            bcrypt_verdict(password->Some_0@, h) == Some(true) && #[trigger] credentials_outcome(
                old(store)@,
                user@.id,
                given_or(email, user@.email),
                h,
                count_outcome(r),
                final(store)@,
            )),
{
    let password_hash = match password {
        Some(p) => match hash_password(&p) {
            Ok(h) => Some(h),
            Err(e) => {
                proof {
                    use_type_invariant(&*store);
                }
                return Err(e);
            },
        },
        None => None,
    };
    store_credentials(store, user, email, password_hash)
}

/// Deletes the account with the id of `user`, and its sessions with it.
/// Returns the number of accounts deleted: one, or none where the store
/// has no account with that id.
pub fn delete_user(store: &mut Store, user: User) -> (r: Result<usize, Error>)
    ensures
        old(store)@.well_formed(),
        final(store)@.well_formed(),
        final(store)@ == old(store)@.without_user(user@.id),
        count_outcome(r) == Ok::<usize, ErrorView>(
            if old(store)@.has_user(user@.id) {
                1usize
            } else {
                0usize
            },
        ),
{
    Ok(store.delete_user(user.id))
}

/// The session that is issued at `now` for an account, with the given id
/// and token: it expires `SESSION_SECONDS` later.
pub open spec fn new_session(id: u128, token: u128, user_id: u128, now: i64) -> UserSession {
    UserSession {
        id: id,
        token: token,
        user_id: user_id,
        expires_at: (now + SESSION_SECONDS) as i64,
    }
}

/// Whether `r` and `after` are what the store answers and becomes when
/// `session` is to be inserted.
pub open spec fn issue_outcome(
    before: StoreView,
    session: UserSession,
    r: Result<UserSession, ErrorView>,
    after: StoreView,
) -> bool {
    if before.session_taken(session) {
        r == Err::<UserSession, ErrorView>(ErrorView::QueryError(UNIQUE_VIOLATION@)) && after
            == before
    } else if !before.has_user(session.user_id) {
        r == Err::<UserSession, ErrorView>(ErrorView::QueryError(FOREIGN_KEY_VIOLATION@)) && after
            == before
    } else {
        r == Ok::<UserSession, ErrorView>(session) && after == before.with_session(session)
    }
}

/// Issues, at the time `now`, a session for `user` with the given id and
/// token, and stores it.
pub fn create_session_at(store: &mut Store, user: &User, id: u128, token: u128, now: i64) -> (r:
    Result<UserSession, Error>)
    requires
        now + SESSION_SECONDS <= i64::MAX,
    ensures
        old(store)@.well_formed(),
        final(store)@.well_formed(),
        issue_outcome(
            old(store)@,
            new_session(id, token, user@.id, now),
            session_outcome(r),
            final(store)@,
        ),
{
    let session = UserSession {
        id: id,
        token: token,
        user_id: user.id,
        expires_at: now + SESSION_SECONDS,
    };
    match store.insert_session(session) {
        Ok(_) => Ok(session),
        Err(e) => Err(e),
    }
}

/// Issues a session for `user`: draws a random id and a random token, reads
/// the clock, and stores a session that expires `SESSION_SECONDS` after the
/// time read.
pub fn create_session(store: &mut Store, user: User) -> (r: Result<UserSession, Error>)
    ensures
        old(store)@.well_formed(),
        final(store)@.well_formed(),
        exists|id: u128, token: u128, now: i64|
            is_random_uuid(id) && is_random_uuid(token) && 0 <= now < CLOCK_LIMIT
                && #[trigger] issue_outcome(
                old(store)@,
                new_session(id, token, user@.id, now),
                session_outcome(r),
                final(store)@,
            ),
{
    let id = random_uuid();
    let token = random_uuid();
    let now = unix_now();
    create_session_at(store, &user, id, token, now)
}

/// What a token resolves to at the time `now`: `NotFound` where no session
/// carries it, `SessionExpired` where the session's expiry is not after
/// `now`, else the account that owns the session.
pub open spec fn token_outcome(store: StoreView, token: u128, now: i64) -> Result<
    UserView,
    ErrorView,
> {
    match store.session_by_token(token) {
        None => Err(ErrorView::NotFound),
        Some(s) => if s.expires_at > now {
            match store.user_by_id(s.user_id) {
                Some(u) => Ok(u),
                None => Err(ErrorView::NotFound),
            }
        } else {
            Err(ErrorView::SessionExpired)
        },
    }
}

/// Resolves a token at the time `now`.
pub fn get_by_token_at(store: &Store, token: u128, now: i64) -> (r: Result<User, Error>)
    ensures
        store@.well_formed(),
        user_outcome(r) == token_outcome(store@, token, now),
{
    match store.find_session_by_token(token) {
        None => Err(Error::NotFound),
        Some(session) => {
            if session.expires_at > now {
                match store.find_user_by_id(session.user_id) {
                    Some(user) => Ok(user),
                    None => Err(Error::NotFound),
                }
            } else {
                Err(Error::SessionExpired)
            }
        },
    }
}

/// Resolves a token at the time that the clock gives.
pub fn get_by_token(store: &Store, token: u128) -> (r: Result<User, Error>)
    ensures
        store@.well_formed(),
        exists|now: i64|
            0 <= now < CLOCK_LIMIT && user_outcome(r) == #[trigger] token_outcome(
                store@,
                token,
                now,
            ),
{
    let now = unix_now();
    get_by_token_at(store, token, now)
}

/// Deletes the sessions that expire before `now`, and returns how many
/// they were.
pub fn delete_expired_sessions_at(store: &mut Store, now: i64) -> (r: Result<usize, Error>)
    ensures
        old(store)@.well_formed(),
        final(store)@.well_formed(),
        final(store)@ == old(store)@.without_expired(now),
        count_outcome(r) == Ok::<usize, ErrorView>(
            (old(store)@.sessions.len() - final(store)@.sessions.len()) as usize,
        ),
{
    Ok(store.delete_sessions_before(now))
}

/// Deletes the sessions that have expired before the time that the clock
/// gives, and returns how many they were.
pub fn delete_expired_sessions(store: &mut Store) -> (r: Result<usize, Error>)
    ensures
        old(store)@.well_formed(),
        final(store)@.well_formed(),
        exists|now: i64|
            0 <= now < CLOCK_LIMIT && final(store)@ == #[trigger] old(store)@.without_expired(now)
                && count_outcome(r) == Ok::<usize, ErrorView>(
                (old(store)@.sessions.len() - final(store)@.sessions.len()) as usize,
            ),
{
    let now = unix_now();
    delete_expired_sessions_at(store, now)
}

} // verus!
