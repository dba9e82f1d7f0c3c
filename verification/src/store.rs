//! The store of accounts and sessions: two tables kept in memory, with the
//! uniqueness and reference constraints of the schema enforced on every
//! write. A write takes the store by `&mut`, so two writes never interleave:
//! a check and the insert that follows it are one step to every other
//! caller.

use crate::seqs::{
    first_index, first_where, lemma_filter_all, lemma_filter_keeps, lemma_filter_pair,
    lemma_filter_remove, lemma_filter_source, lemma_filter_step, lemma_first_index,
    lemma_first_index_is,
};
use crate::users::models::{Error, ErrorView, User, UserSession, UserView};
use vstd::prelude::*;

verus! {

/// The detail of the error for a write that would break a uniqueness
/// constraint.
pub const UNIQUE_VIOLATION: &'static str = "duplicate key value violates unique constraint";

/// The detail of the error for a session whose owner is not in the store.
pub const FOREIGN_KEY_VIOLATION: &'static str = "insert violates foreign key constraint";

/// Whether two accounts could not stand in one store: they share the id, the
/// username or the email.
pub open spec fn clash(a: UserView, b: UserView) -> bool {
    a.id == b.id || a.username == b.username || a.email == b.email
}

/// Whether an account is the one meant by a login identifier: the
/// identifier is its username or its email, letter for letter.
pub open spec fn answers_to(u: UserView, identifier: Seq<char>) -> bool {
    u.username == identifier || u.email == identifier
}

/// The accounts that answer to `identifier`, as a predicate.
pub open spec fn login_pred(identifier: Seq<char>) -> spec_fn(UserView) -> bool {
    |u: UserView| answers_to(u, identifier)
}

/// The accounts with the given id, as a predicate.
pub open spec fn id_pred(id: u128) -> spec_fn(UserView) -> bool {
    |u: UserView| u.id == id
}

/// The sessions with the given token, as a predicate.
pub open spec fn token_pred(token: u128) -> spec_fn(UserSession) -> bool {
    |s: UserSession| s.token == token
}

/// The accounts that hold `username` or hold `email`, as a predicate.
pub open spec fn taken_pred(username: Seq<char>, email: Seq<char>) -> spec_fn(UserView) -> bool {
    |u: UserView| u.username == username || u.email == email
}

/// The accounts with another id than the given one, as a predicate.
pub open spec fn other_user_pred(id: u128) -> spec_fn(UserView) -> bool {
    |u: UserView| u.id != id
}

/// The sessions of other accounts than the given one, as a predicate.
pub open spec fn other_owner_pred(id: u128) -> spec_fn(UserSession) -> bool {
    |s: UserSession| s.user_id != id
}

/// The sessions that a reaping at `now` leaves: those that do not expire
/// before it.
pub open spec fn unexpired_pred(now: i64) -> spec_fn(UserSession) -> bool {
    |s: UserSession| s.expires_at >= now
}

/// Whether one of the accounts has the given id.
pub open spec fn id_among(users: Seq<UserView>, id: u128) -> bool {
    exists|i: int| 0 <= i < users.len() && (#[trigger] users[i]).id == id
}

/// What the store holds: the accounts and the sessions, each in the order
/// in which they were inserted.
pub struct StoreView {
    pub users: Seq<UserView>,
    pub sessions: Seq<UserSession>,
}

impl StoreView {
    /// The store without any row.
    pub open spec fn empty() -> StoreView {
        StoreView { users: Seq::empty(), sessions: Seq::empty() }
    }

    /// Whether an account with this id is stored.
    pub open spec fn has_user(self, id: u128) -> bool {
        id_among(self.users, id)
    }

    /// The constraints of the schema: ids, usernames and emails of accounts
    /// are unique, ids and tokens of sessions are unique, and every session
    /// belongs to a stored account.
    pub open spec fn well_formed(self) -> bool {
        &&& forall|i: int, j: int|
            0 <= i < j < self.users.len() ==> !clash(
                #[trigger] self.users[i],
                #[trigger] self.users[j],
            )
        &&& forall|i: int, j: int|
            0 <= i < j < self.sessions.len() ==> {
                &&& (#[trigger] self.sessions[i]).id != (#[trigger] self.sessions[j]).id
                &&& self.sessions[i].token != self.sessions[j].token
            }
        &&& forall|k: int|
            0 <= k < self.sessions.len() ==> self.has_user((#[trigger] self.sessions[k]).user_id)
    }

    /// Whether `u` can be inserted: it clashes with no stored account.
    pub open spec fn accepts_user(self, u: UserView) -> bool {
        forall|i: int| 0 <= i < self.users.len() ==> !clash(#[trigger] self.users[i], u)
    }

    /// The store after `u` was inserted.
    pub open spec fn with_user(self, u: UserView) -> StoreView {
        StoreView { users: self.users.push(u), sessions: self.sessions }
    }

    /// Whether the id or the token of `s` is taken by a stored session.
    pub open spec fn session_taken(self, s: UserSession) -> bool {
        exists|k: int|
            0 <= k < self.sessions.len() && ((#[trigger] self.sessions[k]).id == s.id
                || self.sessions[k].token == s.token)
    }

    /// The store after `s` was inserted.
    pub open spec fn with_session(self, s: UserSession) -> StoreView {
        StoreView { users: self.users, sessions: self.sessions.push(s) }
    }

    /// The stored accounts that hold `username` or hold `email`, in the
    /// order of insertion.
    pub open spec fn users_holding(self, username: Seq<char>, email: Seq<char>) -> Seq<UserView> {
        self.users.filter(taken_pred(username, email))
    }

    /// Whether another account than the one with the given id holds `email`.
    pub open spec fn email_held_by_other(self, id: u128, email: Seq<char>) -> bool {
        exists|i: int|
            0 <= i < self.users.len() && (#[trigger] self.users[i]).id != id && self.users[i].email
                == email
    }

    /// The store after the account with the given id got a new email and a
    /// new password hash; the store itself where no account has the id.
    pub open spec fn with_credentials(
        self,
        id: u128,
        email: Seq<char>,
        password: Seq<char>,
    ) -> StoreView {
        let i = first_index(self.users, id_pred(id));
        if i < self.users.len() {
            StoreView {
                users: self.users.update(
                    i,
                    UserView {
                        id: self.users[i].id,
                        username: self.users[i].username,
                        email: email,
                        password: password,
                        active: self.users[i].active,
                    },
                ),
                sessions: self.sessions,
            }
        } else {
            self
        }
    }

    /// The store after the account with the given id was deleted, and its
    /// sessions with it.
    pub open spec fn without_user(self, id: u128) -> StoreView {
        StoreView {
            users: self.users.filter(other_user_pred(id)),
            sessions: self.sessions.filter(other_owner_pred(id)),
        }
    }

    /// The store after the sessions that expire before `now` were deleted.
    pub open spec fn without_expired(self, now: i64) -> StoreView {
        StoreView { users: self.users, sessions: self.sessions.filter(unexpired_pred(now)) }
    }

    /// The account that a login identifier selects: the first one, in the
    /// order of insertion, whose username or email equals it.
    pub open spec fn login_candidate(self, identifier: Seq<char>) -> Option<UserView> {
        first_where(self.users, login_pred(identifier))
    }

    /// The account with the given id.
    pub open spec fn user_by_id(self, id: u128) -> Option<UserView> {
        first_where(self.users, id_pred(id))
    }

    /// The session that carries the given token.
    pub open spec fn session_by_token(self, token: u128) -> Option<UserSession> {
        first_where(self.sessions, token_pred(token))
    }
}

impl StoreView {
    /// Inserting an account that clashes with none keeps the constraints.
    pub proof fn lemma_with_user(self, u: UserView)
        requires
            self.well_formed(),
            self.accepts_user(u),
        ensures
            self.with_user(u).well_formed(),
    {
        let after = self.with_user(u);
        assert forall|k: int| 0 <= k < after.sessions.len() implies after.has_user(
            (#[trigger] after.sessions[k]).user_id,
        ) by {
            assert(self.has_user(self.sessions[k].user_id));
            let i = choose|i: int|
                0 <= i < self.users.len() && (#[trigger] self.users[i]).id
                    == self.sessions[k].user_id;
            assert(after.users[i] == self.users[i]);
        }
    }

    /// Inserting a session of a stored account, with an id and a token that
    /// no stored session has, keeps the constraints.
    pub proof fn lemma_with_session(self, s: UserSession)
        requires
            self.well_formed(),
            self.has_user(s.user_id),
            !self.session_taken(s),
        ensures
            self.with_session(s).well_formed(),
    {
        let after = self.with_session(s);
        assert forall|i: int, j: int| 0 <= i < j < after.sessions.len() implies {
            &&& (#[trigger] after.sessions[i]).id != (#[trigger] after.sessions[j]).id
            &&& after.sessions[i].token != after.sessions[j].token
        } by {
            if j == self.sessions.len() {
                assert(self.sessions[i].id != s.id && self.sessions[i].token != s.token);
            }
        }
    }

    /// Filtering the sessions keeps their ids and tokens unique.
    pub proof fn lemma_sessions_filtered(self, p: spec_fn(UserSession) -> bool)
        requires
            self.well_formed(),
        ensures
            forall|i: int, j: int|
                0 <= i < j < self.sessions.filter(p).len() ==> {
                    &&& (#[trigger] self.sessions.filter(p)[i]).id != (
                    #[trigger] self.sessions.filter(p)[j]).id
                    &&& self.sessions.filter(p)[i].token != self.sessions.filter(p)[j].token
                },
    {
        let kept = self.sessions.filter(p);
        assert forall|i: int, j: int| 0 <= i < j < kept.len() implies {
            &&& (#[trigger] kept[i]).id != (#[trigger] kept[j]).id
            &&& kept[i].token != kept[j].token
        } by {
            let at = lemma_filter_pair(self.sessions, p, i, j);
            assert(self.sessions[at.0].id != self.sessions[at.1].id);
        }
    }

    /// Deleting the expired sessions keeps the constraints.
    pub proof fn lemma_without_expired(self, now: i64)
        requires
            self.well_formed(),
        ensures
            self.without_expired(now).well_formed(),
    {
        let after = self.without_expired(now);
        self.lemma_sessions_filtered(unexpired_pred(now));
        assert forall|k: int| 0 <= k < after.sessions.len() implies after.has_user(
            (#[trigger] after.sessions[k]).user_id,
        ) by {
            let at = lemma_filter_source(self.sessions, unexpired_pred(now), k);
            assert(self.has_user(self.sessions[at].user_id));
        }
    }

    /// Deleting an account with its sessions keeps the constraints.
    pub proof fn lemma_without_user(self, id: u128)
        requires
            self.well_formed(),
        ensures
            self.without_user(id).well_formed(),
    {
        let after = self.without_user(id);
        self.lemma_sessions_filtered(other_owner_pred(id));
        assert forall|i: int, j: int| 0 <= i < j < after.users.len() implies !clash(
            #[trigger] after.users[i],
            #[trigger] after.users[j],
        ) by {
            let at = lemma_filter_pair(self.users, other_user_pred(id), i, j);
            assert(!clash(self.users[at.0], self.users[at.1]));
        }
        assert forall|k: int| 0 <= k < after.sessions.len() implies after.has_user(
            (#[trigger] after.sessions[k]).user_id,
        ) by {
            let at = lemma_filter_source(self.sessions, other_owner_pred(id), k);
            assert(self.has_user(self.sessions[at].user_id));
            let i = choose|i: int|
                0 <= i < self.users.len() && (#[trigger] self.users[i]).id
                    == self.sessions[at].user_id;
            let a = lemma_filter_keeps(self.users, other_user_pred(id), i);
            assert(after.users[a].id == after.sessions[k].user_id);
        }
    }

    /// Giving an account a new email that no other account holds, and a new
    /// password hash, keeps the constraints.
    pub proof fn lemma_with_credentials(self, id: u128, email: Seq<char>, password: Seq<char>)
        requires
            self.well_formed(),
            !self.email_held_by_other(id, email),
        ensures
            self.with_credentials(id, email, password).well_formed(),
    {
        let after = self.with_credentials(id, email, password);
        let at = first_index(self.users, id_pred(id));
        lemma_first_index(self.users, id_pred(id));
        if at < self.users.len() {
            assert(self.users[at].id == id);
            assert forall|i: int, j: int| 0 <= i < j < after.users.len() implies !clash(
                #[trigger] after.users[i],
                #[trigger] after.users[j],
            ) by {
                assert(!clash(self.users[i], self.users[j]));
            }
            assert forall|k: int| 0 <= k < after.sessions.len() implies after.has_user(
                (#[trigger] after.sessions[k]).user_id,
            ) by {
                assert(self.has_user(self.sessions[k].user_id));
                let i = choose|i: int|
                    0 <= i < self.users.len() && (#[trigger] self.users[i]).id
                        == self.sessions[k].user_id;
                assert(after.users[i].id == after.sessions[k].user_id);
            }
        }
    }
}

/// A found account by its view.
pub open spec fn user_option(found: Option<User>) -> Option<UserView> {
    match found {
        Some(u) => Some(u@),
        None => None,
    }
}

/// The accounts of a vector, each by its view.
pub open spec fn user_views(users: Seq<User>) -> Seq<UserView> {
    users.map_values(|u: User| u@)
}

/// The store of accounts and sessions.
pub struct Store {
    users: Vec<User>,
    sessions: Vec<UserSession>,
}

impl View for Store {
    type V = StoreView;

    closed spec fn view(&self) -> StoreView {
        StoreView { users: user_views(self.users@), sessions: self.sessions@ }
    }
}

impl Store {
    /// Holds of every store: no operation leaves the constraints broken.
    #[verifier::type_invariant]
    pub open spec fn constraints_hold(self) -> bool {
        self@.well_formed()
    }

    /// An empty store.
    pub fn new() -> (store: Store)
        ensures
            store@ == StoreView::empty(),
    {
        let store = Store { users: Vec::new(), sessions: Vec::new() };
        assert(store@.users =~= Seq::empty());
        store
    }

    /// Moves the two tables out and leaves the store empty, so that they
    /// can be changed and put back as a whole.
    fn take_tables(&mut self) -> (tables: (Vec<User>, Vec<UserSession>))
        ensures
            tables.0 == old(self).users,
            tables.1 == old(self).sessions,
            old(self)@.well_formed(),
    {
        proof {
            use_type_invariant(&*self);
        }
        let mut taken = Store::new();
        core::mem::swap(self, &mut taken);
        let Store { users, sessions } = taken;
        (users, sessions)
    }

    /// The number of stored accounts.
    pub fn user_count(&self) -> (n: usize)
        ensures
            n == self@.users.len(),
            self@.well_formed(),
    {
        proof {
            use_type_invariant(self);
        }
        self.users.len()
    }

    /// The number of stored sessions.
    pub fn session_count(&self) -> (n: usize)
        ensures
            n == self@.sessions.len(),
    {
        self.sessions.len()
    }

    /// Inserts an account. The write is refused, and the store left as it
    /// was, exactly when the account clashes with a stored one.
    pub fn insert_user(&mut self, user: User) -> (r: Result<(), Error>)
        ensures
            old(self)@.well_formed(),
            final(self)@.well_formed(),
            match r {
                Ok(_) => old(self)@.accepts_user(user@) && final(self)@ == old(self)@.with_user(
                    user@,
                ),
                Err(e) => !old(self)@.accepts_user(user@) && final(self)@ == old(self)@ && e@
                    == ErrorView::QueryError(UNIQUE_VIOLATION@),
            },
    {
        proof {
            use_type_invariant(&*self);
        }
        let n = self.users.len();
        let mut i: usize = 0;
        while i < n
            invariant
                i <= n,
                n == self.users.len(),
                *self == *old(self),
                self@.well_formed(),
                forall|j: int| 0 <= j < i ==> !clash(#[trigger] self@.users[j], user@),
            decreases n - i,
        {
            let u = &self.users[i];
            assert(self@.users[i as int] == u@);
            if u.id == user.id || u.username == user.username || u.email == user.email {
                return Err(Error::QueryError(UNIQUE_VIOLATION.to_owned()));
            }
            i += 1;
        }
        let (mut users, sessions) = self.take_tables();
        users.push(user);
        proof {
            assert(user_views(users@) =~= old(self)@.users.push(user@));
            old(self)@.lemma_with_user(user@);
        }
        *self = Store { users, sessions };
        Ok(())
    }

    /// The account that a login identifier selects: the first whose
    /// username or email equals it.
    pub fn find_user_by_login(&self, identifier: &String) -> (found: Option<User>)
        ensures
            self@.well_formed(),
            user_option(found) == self@.login_candidate(identifier@),
    {
        proof {
            use_type_invariant(self);
        }
        let n = self.users.len();
        let mut i: usize = 0;
        while i < n
            invariant
                i <= n,
                n == self.users.len(),
                self@.well_formed(),
                forall|j: int| 0 <= j < i ==> !answers_to(#[trigger] self@.users[j], identifier@),
            decreases n - i,
        {
            let u = &self.users[i];
            assert(self@.users[i as int] == u@);
            if u.username == *identifier || u.email == *identifier {
                proof {
                    lemma_first_index_is(self@.users, login_pred(identifier@), i as int);
                }
                return Some(u.clone());
            }
            i += 1;
        }
        proof {
            lemma_first_index_is(self@.users, login_pred(identifier@), n as int);
        }
        None
    }

    /// The account with the given id.
    pub fn find_user_by_id(&self, id: u128) -> (found: Option<User>)
        ensures
            self@.well_formed(),
            user_option(found) == self@.user_by_id(id),
            found is Some <==> self@.has_user(id),
    {
        proof {
            use_type_invariant(self);
        }
        match self.position_of_user(id) {
            Some(i) => Some(self.users[i].clone()),
            None => None,
        }
    }

    /// The position of the account with the given id.
    fn position_of_user(&self, id: u128) -> (at: Option<usize>)
        ensures
            match at {
                Some(i) => {
                    &&& i == first_index(self@.users, id_pred(id))
                    &&& i < self@.users.len()
                    &&& self@.users[i as int] == self.users[i as int]@
                    &&& self@.users[i as int].id == id
                    &&& self@.has_user(id)
                },
                None => first_index(self@.users, id_pred(id)) == self@.users.len()
                    && !self@.has_user(id),
            },
    {
        let n = self.users.len();
        let mut i: usize = 0;
        while i < n
            invariant
                i <= n,
                n == self.users.len(),
                forall|j: int| 0 <= j < i ==> (#[trigger] self@.users[j]).id != id,
            decreases n - i,
        {
            assert(self@.users[i as int] == self.users[i as int]@);
            if self.users[i].id == id {
                proof {
                    lemma_first_index_is(self@.users, id_pred(id), i as int);
                }
                return Some(i);
            }
            i += 1;
        }
        proof {
            lemma_first_index_is(self@.users, id_pred(id), n as int);
        }
        None
    }

    /// The stored accounts that hold `username` or hold `email`, in the
    /// order of insertion.
    pub fn find_users_holding(&self, username: &String, email: &String) -> (found: Vec<User>)
        ensures
            self@.well_formed(),
            user_views(found@) == self@.users_holding(username@, email@),
    {
        proof {
            use_type_invariant(self);
        }
        let ghost p = taken_pred(username@, email@);
        let mut found: Vec<User> = Vec::new();
        let n = self.users.len();
        let mut i: usize = 0;
        assert(self@.users.take(0).filter(p) =~= Seq::empty()) by {
            reveal(Seq::filter);
        }
        assert(user_views(found@) =~= Seq::empty());
        while i < n
            invariant
                i <= n,
                n == self.users.len(),
                p == taken_pred(username@, email@),
                user_views(found@) == self@.users.take(i as int).filter(p),
            decreases n - i,
        {
            let u = &self.users[i];
            assert(self@.users[i as int] == u@);
            proof {
                lemma_filter_step(self@.users, p, i as int);
            }
            if u.username == *username || u.email == *email {
                let ghost before = found@;
                found.push(u.clone());
                assert(user_views(found@) =~= user_views(before).push(u@));
            }
            i += 1;
        }
        assert(self@.users.take(n as int) =~= self@.users);
        found
    }

    /// The session that carries the given token.
    pub fn find_session_by_token(&self, token: u128) -> (found: Option<UserSession>)
        ensures
            self@.well_formed(),
            found == self@.session_by_token(token),
    {
        proof {
            use_type_invariant(self);
        }
        let n = self.sessions.len();
        let mut i: usize = 0;
        while i < n
            invariant
                i <= n,
                n == self.sessions.len(),
                self@.well_formed(),
                forall|j: int| 0 <= j < i ==> (#[trigger] self@.sessions[j]).token != token,
            decreases n - i,
        {
            let s = self.sessions[i];
            if s.token == token {
                proof {
                    lemma_first_index_is(self@.sessions, token_pred(token), i as int);
                }
                return Some(s);
            }
            i += 1;
        }
        proof {
            lemma_first_index_is(self@.sessions, token_pred(token), n as int);
        }
        None
    }

    /// Whether the id or the token of `session` is taken by a stored one.
    fn session_is_taken(&self, session: &UserSession) -> (taken: bool)
        ensures
            taken == self@.session_taken(*session),
    {
        let n = self.sessions.len();
        let mut i: usize = 0;
        while i < n
            invariant
                i <= n,
                n == self.sessions.len(),
                forall|j: int|
                    0 <= j < i ==> (#[trigger] self@.sessions[j]).id != session.id
                        && self@.sessions[j].token != session.token,
            decreases n - i,
        {
            let s = self.sessions[i];
            if s.id == session.id || s.token == session.token {
                assert(self@.sessions[i as int].id == session.id || self@.sessions[i as int].token
                    == session.token);
                return true;
            }
            i += 1;
        }
        false
    }

    /// Inserts a session. The write is refused, and the store left as it
    /// was, when the id or the token is taken by a stored session, and when
    /// the owner is not a stored account.
    pub fn insert_session(&mut self, session: UserSession) -> (r: Result<(), Error>)
        ensures
            old(self)@.well_formed(),
            final(self)@.well_formed(),
            match r {
                Ok(_) => !old(self)@.session_taken(session) && old(self)@.has_user(session.user_id)
                    && final(self)@ == old(self)@.with_session(session),
                Err(e) => final(self)@ == old(self)@ && if old(self)@.session_taken(session) {
                    e@ == ErrorView::QueryError(UNIQUE_VIOLATION@)
                } else {
                    !old(self)@.has_user(session.user_id) && e@ == ErrorView::QueryError(
                        FOREIGN_KEY_VIOLATION@,
                    )
                },
            },
    {
        proof {
            use_type_invariant(&*self);
        }
        if self.session_is_taken(&session) {
            return Err(Error::QueryError(UNIQUE_VIOLATION.to_owned()));
        }
        if self.position_of_user(session.user_id).is_none() {
            return Err(Error::QueryError(FOREIGN_KEY_VIOLATION.to_owned()));
        }
        let (users, mut sessions) = self.take_tables();
        sessions.push(session);
        proof {
            old(self)@.lemma_with_session(session);
        }
        *self = Store { users, sessions };
        Ok(())
    }

    /// Whether another account than the one with the given id holds `email`.
    fn email_is_held_by_other(&self, id: u128, email: &String) -> (held: bool)
        ensures
            held == self@.email_held_by_other(id, email@),
    {
        let n = self.users.len();
        let mut i: usize = 0;
        while i < n
            invariant
                i <= n,
                n == self.users.len(),
                forall|j: int|
                    0 <= j < i ==> !((#[trigger] self@.users[j]).id != id && self@.users[j].email
                        == email@),
            decreases n - i,
        {
            let u = &self.users[i];
            assert(self@.users[i as int] == u@);
            if u.id != id && u.email == *email {
                return true;
            }
            i += 1;
        }
        false
    }

    /// Gives the account with the given id a new email and a new password
    /// hash, and says how many accounts were changed: none where no account
    /// has the id. The write is refused, and the store left as it was, when
    /// there is such an account and another one holds the email.
    pub fn update_user(&mut self, id: u128, email: String, password: String) -> (r: Result<
        usize,
        Error,
    >)
        ensures
            old(self)@.well_formed(),
            final(self)@.well_formed(),
            match r {
                Ok(n) => if old(self)@.has_user(id) {
                    n == 1 && !old(self)@.email_held_by_other(id, email@) && final(self)@ == old(
                        self,
                    )@.with_credentials(id, email@, password@)
                } else {
                    n == 0 && final(self)@ == old(self)@
                },
                Err(e) => final(self)@ == old(self)@ && old(self)@.has_user(id)
                    && old(self)@.email_held_by_other(id, email@) && e@ == ErrorView::QueryError(
                    UNIQUE_VIOLATION@,
                ),
            },
    {
        proof {
            use_type_invariant(&*self);
        }
        let at = match self.position_of_user(id) {
            Some(i) => i,
            None => {
                return Ok(0);
            },
        };
        if self.email_is_held_by_other(id, &email) {
            return Err(Error::QueryError(UNIQUE_VIOLATION.to_owned()));
        }
        let (mut users, sessions) = self.take_tables();
        let previous = users.remove(at);
        let changed = User {
            id: previous.id,
            username: previous.username,
            email: email,
            password: password,
            active: previous.active,
        };
        users.insert(at, changed);
        proof {
            assert(user_views(users@) =~= old(self)@.with_credentials(id, email@, password@).users);
            old(self)@.lemma_with_credentials(id, email@, password@);
        }
        *self = Store { users, sessions };
        Ok(1)
    }

    /// Deletes the account with the given id, and its sessions with it, and
    /// says how many accounts were deleted: one, or none where no account
    /// has the id.
    pub fn delete_user(&mut self, id: u128) -> (deleted: usize)
        ensures
            old(self)@.well_formed(),
            final(self)@.well_formed(),
            final(self)@ == old(self)@.without_user(id),
            deleted == (if old(self)@.has_user(id) {
                1usize
            } else {
                0usize
            }),
    {
        proof {
            use_type_invariant(&*self);
            old(self)@.lemma_without_user(id);
        }
        let at = self.position_of_user(id);
        let (mut users, sessions) = self.take_tables();
        let ghost p = other_owner_pred(id);
        let mut kept: Vec<UserSession> = Vec::new();
        let n = sessions.len();
        let mut i: usize = 0;
        assert(sessions@.take(0).filter(p) =~= Seq::empty()) by {
            reveal(Seq::filter);
        }
        while i < n
            invariant
                i <= n,
                n == sessions.len(),
                p == other_owner_pred(id),
                kept@ == sessions@.take(i as int).filter(p),
            decreases n - i,
        {
            let s = sessions[i];
            proof {
                lemma_filter_step(sessions@, p, i as int);
            }
            if s.user_id != id {
                kept.push(s);
            }
            i += 1;
        }
        assert(sessions@.take(n as int) =~= sessions@);
        let deleted: usize = match at {
            Some(k) => {
                let _ = users.remove(k);
                proof {
                    let before = old(self)@.users;
                    assert forall|j: int| 0 <= j < before.len() && j != k implies other_user_pred(
                        id,
                    )(#[trigger] before[j]) by {
                        if j < k {
                            assert(!clash(before[j], before[k as int]));
                        } else {
                            assert(!clash(before[k as int], before[j]));
                        }
                    }
                    lemma_filter_remove(before, other_user_pred(id), k as int);
                    assert(user_views(users@) =~= before.remove(k as int));
                }
                1
            },
            None => {
                proof {
                    let before = old(self)@.users;
                    assert forall|j: int| 0 <= j < before.len() implies other_user_pred(id)(
                        #[trigger] before[j],
                    ) by {
                        if before[j].id == id {
                            assert(old(self)@.has_user(id));
                        }
                    }
                    lemma_filter_all(before, other_user_pred(id));
                }
                0
            },
        };
        *self = Store { users, sessions: kept };
        deleted
    }

    /// Deletes the sessions that expire before `now`, and says how many
    /// they were.
    pub fn delete_sessions_before(&mut self, now: i64) -> (deleted: usize)
        ensures
            old(self)@.well_formed(),
            final(self)@.well_formed(),
            final(self)@ == old(self)@.without_expired(now),
            deleted == old(self)@.sessions.len() - final(self)@.sessions.len(),
    {
        proof {
            use_type_invariant(&*self);
            old(self)@.lemma_without_expired(now);
        }
        let (users, sessions) = self.take_tables();
        let ghost p = unexpired_pred(now);
        let mut kept: Vec<UserSession> = Vec::new();
        let n = sessions.len();
        let mut i: usize = 0;
        assert(sessions@.take(0).filter(p) =~= Seq::empty()) by {
            reveal(Seq::filter);
        }
        while i < n
            invariant
                i <= n,
                n == sessions.len(),
                p == unexpired_pred(now),
                kept@ == sessions@.take(i as int).filter(p),
                kept@.len() <= i,
            decreases n - i,
        {
            let s = sessions[i];
            proof {
                lemma_filter_step(sessions@, p, i as int);
            }
            if s.expires_at >= now {
                kept.push(s);
            }
            i += 1;
        }
        assert(sessions@.take(n as int) =~= sessions@);
        let deleted = n - kept.len();
        *self = Store { users, sessions: kept };
        deleted
    }
}

} // verus!
