//! What holds across the operations on accounts and sessions, stated over
//! the outcomes that their contracts give and proved from those alone.

use crate::ident::is_random_uuid;
use crate::password::bcrypt_verdict;
use crate::seqs::{
    first_index, lemma_filter_all, lemma_filter_keeps, lemma_filter_source, lemma_first_index,
    lemma_first_index_is,
};
use crate::store::{
    answers_to, id_pred, login_pred, taken_pred, token_pred, unexpired_pred, StoreView,
};
use crate::users::handlers::{registration_outcome, valid_user_data, ALREADY_TAKEN};
use crate::users::models::{
    creation_outcome, issue_outcome, login_outcome, new_session, new_user, store_outcome,
    token_outcome, ErrorView, UserSession, UserView, SESSION_SECONDS,
};
use vstd::prelude::*;

verus! {

/// No stored account holds `username` or holds `email` exactly when the
/// search for such accounts finds none.
pub proof fn lemma_holders(store: StoreView, username: Seq<char>, email: Seq<char>)
    ensures
        store.users_holding(username, email).len() == 0 <==> forall|i: int|
            0 <= i < store.users.len() ==> (#[trigger] store.users[i]).username != username
                && store.users[i].email != email,
{
    let p = taken_pred(username, email);
    if store.users_holding(username, email).len() == 0 {
        assert forall|i: int| 0 <= i < store.users.len() implies {
            &&& (#[trigger] store.users[i]).username != username
            &&& store.users[i].email != email
        } by {
            if p(store.users[i]) {
                let a = lemma_filter_keeps(store.users, p, i);
            }
        }
    } else {
        let i = lemma_filter_source(store.users, p, 0);
        assert(store.users[i].username == username || store.users[i].email == email);
    }
}

/// An account that was created is inactive, carries the username and email
/// as given, a random id, and a hash that the password verifies against;
/// it clashed with no stored account, and the store has grown by it.
pub proof fn lemma_created(
    before: StoreView,
    username: Seq<char>,
    email: Seq<char>,
    password: Seq<char>,
    account: UserView,
    after: StoreView,
)
    requires
        creation_outcome(before, username, email, password, Ok(account), after),
    ensures
        account.username == username,
        account.email == email,
        !account.active,
        is_random_uuid(account.id),
        bcrypt_verdict(password, account.password) == Some(true),
        before.accepts_user(account),
        after == before.with_user(account),
{
    let (id, password_hash) = choose|id: u128, password_hash: Seq<char>|
        is_random_uuid(id) && bcrypt_verdict(password, password_hash) == Some(true)
            && #[trigger] store_outcome(
            before,
            new_user(id, username, email, password_hash),
            Ok(account),
            after,
        );
}

/// An account that was just registered logs in with its username and the
/// password it was registered with: the login returns that account, with
/// the username and email as given, inactive. The one thing asked of the
/// store is that no older account has the new username as its email: a
/// login with that text would select the older account.
pub proof fn lemma_registered_logs_in(
    before: StoreView,
    username: Seq<char>,
    email: Seq<char>,
    password: Seq<char>,
    account: UserView,
    after: StoreView,
    r: Result<UserView, ErrorView>,
)
    requires
        registration_outcome(before, username, email, password, Ok(account), after),
        forall|i: int|
            0 <= i < before.users.len() ==> (#[trigger] before.users[i]).email != username,
        login_outcome(after, username, password, r),
    ensures
        r == Ok::<UserView, ErrorView>(account),
        account.username == username,
        account.email == email,
        !account.active,
        valid_user_data(username, email, password),
{
    lemma_holders(before, username, email);
    lemma_created(before, username, email, password, account, after);
    let n = before.users.len() as int;
    assert forall|j: int| 0 <= j < n implies !login_pred(username)(#[trigger] after.users[j]) by {
        assert(after.users[j] == before.users[j]);
    }
    assert(login_pred(username)(after.users[n]));
    lemma_first_index_is(after.users, login_pred(username), n);
}

/// Registering with valid data whose username or email a stored account
/// holds fails with `Conflict`, and the store stays as it was. The username
/// is compared letter for letter.
pub proof fn lemma_taken_conflicts(
    before: StoreView,
    username: Seq<char>,
    email: Seq<char>,
    password: Seq<char>,
    holder: int,
    r: Result<UserView, ErrorView>,
    after: StoreView,
)
    requires
        valid_user_data(username, email, password),
        0 <= holder < before.users.len(),
        before.users[holder].username == username || before.users[holder].email == email,
        registration_outcome(before, username, email, password, r, after),
    ensures
        r == Err::<UserView, ErrorView>(ErrorView::Conflict(ALREADY_TAKEN@)),
        after == before,
{
    lemma_holders(before, username, email);
}

/// Of two registrations with the same username, one after the other, with
/// data that passes validation: where the first succeeds, the second fails
/// with `Conflict` and stores nothing.
pub proof fn lemma_second_registration_conflicts(
    before: StoreView,
    username: Seq<char>,
    first_email: Seq<char>,
    first_password: Seq<char>,
    first: UserView,
    between: StoreView,
    second_email: Seq<char>,
    second_password: Seq<char>,
    r: Result<UserView, ErrorView>,
    after: StoreView,
)
    requires
        registration_outcome(before, username, first_email, first_password, Ok(first), between),
        valid_user_data(username, second_email, second_password),
        registration_outcome(between, username, second_email, second_password, r, after),
    ensures
        r == Err::<UserView, ErrorView>(ErrorView::Conflict(ALREADY_TAKEN@)),
        after == between,
{
    lemma_holders(before, username, first_email);
    lemma_created(before, username, first_email, first_password, first, between);
    let n = before.users.len() as int;
    assert(between.users[n] == first);
    lemma_taken_conflicts(between, username, second_email, second_password, n, r, after);
}

/// Whether no stored account has the identifier as its username or email.
pub open spec fn nobody_answers(store: StoreView, identifier: Seq<char>) -> bool {
    forall|i: int| 0 <= i < store.users.len() ==> !answers_to(#[trigger] store.users[i], identifier)
}

/// A login fails with `Unauthorized`, never with `NotFound`, both where no
/// account answers to the identifier and where the account that it selects
/// has a hash that the password does not verify against.
pub proof fn lemma_bad_login_unauthorized(
    store: StoreView,
    identifier: Seq<char>,
    password: Seq<char>,
    r: Result<UserView, ErrorView>,
)
    requires
        login_outcome(store, identifier, password, r),
        nobody_answers(store, identifier) || (store.login_candidate(identifier) matches Some(u)
            && bcrypt_verdict(password, u.password) == Some(false)),
    ensures
        r == Err::<UserView, ErrorView>(ErrorView::Unauthorized),
{
    if nobody_answers(store, identifier) {
        lemma_first_index_is(store.users, login_pred(identifier), store.users.len() as int);
    }
}

/// A session that was issued at `now` expires exactly 30 days later, and
/// its token is that of no session that the store held before.
pub proof fn lemma_issued_session(
    before: StoreView,
    id: u128,
    token: u128,
    user_id: u128,
    now: i64,
    session: UserSession,
    after: StoreView,
)
    requires
        now + SESSION_SECONDS <= i64::MAX,
        issue_outcome(before, new_session(id, token, user_id, now), Ok(session), after),
    ensures
        session.expires_at - now == 30 * 24 * 60 * 60,
        session.token == token,
        session.user_id == user_id,
        forall|k: int|
            0 <= k < before.sessions.len() ==> (#[trigger] before.sessions[k]).token
                != session.token,
        after == before.with_session(session),
{
}

/// A stored session is the one that its token finds.
pub proof fn lemma_token_finds(store: StoreView, k: int)
    requires
        store.well_formed(),
        0 <= k < store.sessions.len(),
    ensures
        store.session_by_token(store.sessions[k].token) == Some(store.sessions[k]),
{
    let p = token_pred(store.sessions[k].token);
    assert forall|j: int| 0 <= j < k implies !p(#[trigger] store.sessions[j]) by {
        assert(store.sessions[j].token != store.sessions[k].token);
    }
    lemma_first_index_is(store.sessions, p, k);
}

/// The token of a stored session resolves, at a time before the session's
/// expiry, to the account that owns the session; at the expiry and after
/// it, to `SessionExpired`.
pub proof fn lemma_token_resolves(store: StoreView, k: int, now: i64)
    requires
        store.well_formed(),
        0 <= k < store.sessions.len(),
    ensures
        store.sessions[k].expires_at > now ==> (token_outcome(store, store.sessions[k].token, now)
            matches Ok(u) && u.id == store.sessions[k].user_id && store.users.contains(u)),
        store.sessions[k].expires_at <= now ==> token_outcome(store, store.sessions[k].token, now)
            == Err::<UserView, ErrorView>(ErrorView::SessionExpired),
{
    lemma_token_finds(store, k);
    let owner = store.sessions[k].user_id;
    assert(store.has_user(owner));
    lemma_first_index(store.users, id_pred(owner));
    let at = first_index(store.users, id_pred(owner));
    if at == store.users.len() {
        let i = choose|i: int|
            0 <= i < store.users.len() && (#[trigger] store.users[i]).id == owner;
        assert(!id_pred(owner)(store.users[i]));
    }
    assert(store.users.contains(store.users[at]));
}

/// Reaping at `now` keeps the accounts, keeps every session that does not
/// expire before `now`, and keeps no other session.
pub proof fn lemma_reaping_keeps(store: StoreView, now: i64, s: UserSession)
    ensures
        store.without_expired(now).users == store.users,
        store.without_expired(now).sessions.contains(s) <==> store.sessions.contains(s)
            && s.expires_at >= now,
{
    let p = unexpired_pred(now);
    let kept = store.without_expired(now).sessions;
    if kept.contains(s) {
        let a = choose|a: int| 0 <= a < kept.len() && kept[a] == s;
        let i = lemma_filter_source(store.sessions, p, a);
        assert(store.sessions[i] == s);
    }
    if store.sessions.contains(s) && s.expires_at >= now {
        let i = choose|i: int| 0 <= i < store.sessions.len() && store.sessions[i] == s;
        let a = lemma_filter_keeps(store.sessions, p, i);
        assert(kept[a] == s);
    }
}

/// A second reaping right after a first removes nothing: the store stays as
/// the first left it, so the second reports no session removed. The two
/// times may differ as long as no session that outlived the first expires
/// before the second.
pub proof fn lemma_reaping_twice(store: StoreView, first: i64, second: i64)
    requires
        forall|k: int|
            0 <= k < store.sessions.len() && (#[trigger] store.sessions[k]).expires_at >= first
                ==> store.sessions[k].expires_at >= second,
    ensures
        store.without_expired(first).without_expired(second) == store.without_expired(first),
        store.without_expired(first).sessions.len() - store.without_expired(first).without_expired(
            second,
        ).sessions.len() == 0,
{
    let kept = store.without_expired(first).sessions;
    assert forall|a: int| 0 <= a < kept.len() implies unexpired_pred(second)(
        #[trigger] kept[a],
    ) by {
        let i = lemma_filter_source(store.sessions, unexpired_pred(first), a);
        assert(store.sessions[i].expires_at >= first);
    }
    lemma_filter_all(kept, unexpired_pred(second));
}

} // verus!
