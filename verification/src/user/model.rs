//! The user table's row type and the operations on it.

use crate::rows::{
    distinct_by, lemma_distinct_update, lemma_filter_is_remove, lemma_filter_keeps_all,
    lemma_row_with_at, view_of, views,
};
use crate::room::RoomUser;
use crate::store::{
    changed_user, lemma_filter_step, lemma_with_user_consistent, lemma_without_user_consistent,
    of_other_users, other_users, user_id, user_name, Id, Store, StoreView, Timestamp,
};
use crate::trusted::{bcrypt_accepts, current_time, printable_ascii, random_id};
use vstd::prelude::*;

verus! {

/// A stored user. `password` holds the salted hash, never the clear text.
#[derive(Debug, PartialEq)]
pub struct User {
    pub id: Id,
    pub username: String,
    pub password: String,
    pub created: Timestamp,
    pub updated: Timestamp,
}

/// What a [`User`] is in contracts.
pub ghost struct UserView {
    pub id: Id,
    pub username: Seq<char>,
    pub password: Seq<char>,
    pub created: Timestamp,
    pub updated: Timestamp,
}

impl View for User {
    type V = UserView;

    open spec fn view(&self) -> UserView {
        UserView {
            id: self.id,
            username: self.username@,
            password: self.password@,
            created: self.created,
            updated: self.updated,
        }
    }
}

impl Clone for User {
    fn clone(&self) -> (r: Self)
        ensures
            r == *self,
    {
        User {
            id: self.id,
            username: self.username.clone(),
            password: self.password.clone(),
            created: self.created,
            updated: self.updated,
        }
    }
}

/// The fields a client supplies to create or change a user. The password is
/// in clear text.
#[derive(Debug)]
pub struct UserData {
    pub username: String,
    pub password: String,
}

impl Clone for UserData {
    fn clone(&self) -> (r: Self)
        ensures
            r == *self,
    {
        UserData { username: self.username.clone(), password: self.password.clone() }
    }
}

/// What is shown of a user: the row without its password.
#[derive(Debug)]
pub struct UserResponse {
    pub id: Id,
    pub username: String,
}

/// What a [`UserResponse`] is in contracts.
pub ghost struct UserResponseView {
    pub id: Id,
    pub username: Seq<char>,
}

impl View for UserResponse {
    type V = UserResponseView;

    open spec fn view(&self) -> UserResponseView {
        UserResponseView { id: self.id, username: self.username@ }
    }
}

/// What is shown of a user row.
pub open spec fn shown(u: UserView) -> UserResponseView {
    UserResponseView { id: u.id, username: u.username }
}

/// What is shown of a user row that may be absent.
pub open spec fn shown_if_any(u: Option<UserView>) -> Option<UserResponseView> {
    match u {
        Some(u) => Some(shown(u)),
        None => None,
    }
}

impl From<User> for UserResponse {
    fn from(user: User) -> (r: UserResponse)
        ensures
            r@ == shown(user@),
    {
        UserResponse { id: user.id, username: user.username }
    }
}

impl vstd::std_specs::convert::FromSpecImpl<User> for UserResponse {
    open spec fn obeys_from_spec() -> bool {
        true
    }

    open spec fn from_spec(user: User) -> UserResponse {
        UserResponse { id: user.id, username: user.username }
    }
}

/// Why an operation on users failed.
#[derive(Debug, Clone, Copy, PartialEq, Eq, Structural)]
pub enum UserError {
    UserNotFound,
    UsernameTaken,
    DatabaseError,
    GenericError,
}

impl User {
    /// What is shown of every user, in storage order.
    pub fn find_all(conn: &Store) -> (r: Result<Vec<UserResponse>, UserError>)
        ensures
            r is Ok,
            views(r->Ok_0@) == conn@.users.map_values(|u: UserView| shown(u)),
    {
        let mut items: Vec<UserResponse> = Vec::new();
        let mut i: usize = 0;
        while i < conn.users.len()
            invariant
                i <= conn.users.len(),
                items.len() == i,
                forall|k: int| 0 <= k < i ==> (#[trigger] items[k])@ == shown(conn@.users[k]),
            decreases conn.users.len() - i,
        {
            let item = UserResponse::from(conn.users[i].clone());
            assert(item@ == shown(conn@.users[i as int]));
            items.push(item);
            i += 1;
        }
        assert(views(items@) =~= conn@.users.map_values(|u: UserView| shown(u)));
        Ok(items)
    }

    /// What is shown of the user with this id, if it is stored.
    pub fn find(conn: &Store, user_id: Id) -> (r: Result<Option<UserResponse>, UserError>)
        requires
            conn.wf(),
        ensures
            r is Ok,
            view_of(r->Ok_0) == shown_if_any(conn@.user(user_id)),
    {
        match User::_find(conn, user_id) {
            Ok(Some(u)) => Ok(Some(UserResponse::from(u))),
            _ => Ok(None),
        }
    }

    /// The row of the user with this id, password hash included, if it is
    /// stored.
    pub fn _find(conn: &Store, user_id: Id) -> (r: Result<Option<User>, UserError>)
        requires
            conn.wf(),
        ensures
            r is Ok,
            view_of(r->Ok_0) == conn@.user(user_id),
    {
        match conn.user_index(user_id) {
            Some(i) => {
                proof {
                    lemma_row_with_at(conn@.users, crate::store::user_id(), i as int);
                }
                Ok(Some(conn.users[i].clone()))
            },
            None => Ok(None),
        }
    }

    /// What is shown of the user of this name, if there is one.
    pub fn find_by_username(conn: &Store, u: &str) -> (r: Result<Option<UserResponse>, UserError>)
        requires
            conn.wf(),
        ensures
            r is Ok,
            view_of(r->Ok_0) == shown_if_any(conn@.user_named(u@)),
    {
        match User::_find_by_username(conn, u) {
            Ok(Some(user)) => Ok(Some(UserResponse::from(user))),
            _ => Ok(None),
        }
    }

    /// The row of the user of this name, password hash included, if there is
    /// one.
    pub fn _find_by_username(conn: &Store, u: &str) -> (r: Result<Option<User>, UserError>)
        requires
            conn.wf(),
        ensures
            r is Ok,
            view_of(r->Ok_0) == conn@.user_named(u@),
    {
        let name = u.to_owned();
        match conn.username_index(&name) {
            Some(i) => {
                proof {
                    lemma_row_with_at(conn@.users, user_name(), i as int);
                }
                Ok(Some(conn.users[i].clone()))
            },
            None => Ok(None),
        }
    }

    /// Whether some user bears this name.
    pub fn username_taken(conn: &Store, u: &str) -> (r: Result<bool, UserError>)
        ensures
            r == Ok::<bool, UserError>(conn@.username_taken(u@)),
    {
        let name = u.to_owned();
        Ok(conn.username_index(&name).is_some())
    }

    /// Whether a user with this id is stored.
    pub fn is_present(conn: &Store, user_id: Id) -> (r: Result<bool, UserError>)
        ensures
            r == Ok::<bool, UserError>(conn@.has_user(user_id)),
    {
        Ok(conn.user_index(user_id).is_some())
    }

    /// Stores a new user under a fresh id, with the hash of the given
    /// password and the time of the call as its time of creation.
    ///
    /// Fails with `UsernameTaken` if a user of that name is stored. Where the
    /// name is free it fails only if the password cannot be hashed
    /// (`GenericError`) or the id turns out to be in use (`DatabaseError`).
    /// A failure changes nothing.
    pub fn create(user_data: UserData, conn: &mut Store) -> (r: Result<UserResponse, UserError>)
        requires
            old(conn).wf(),
        ensures
            final(conn).wf(),
            old(conn)@.username_taken(user_data.username@) <==> r == Err::<UserResponse, UserError>(
                UserError::UsernameTaken,
            ),
            r is Err ==> final(conn)@ == old(conn)@,
            r matches Err(e) ==> e == UserError::UsernameTaken || e == UserError::GenericError || e
                == UserError::DatabaseError,
            r matches Ok(shown_user) ==> exists|u: UserView|
                {
                    &&& final(conn)@ == old(conn)@.with_user(u)
                    &&& shown_user@ == shown(u)
                    &&& u.username == user_data.username@
                    &&& bcrypt_accepts(user_data.password@, u.password)
                    &&& printable_ascii(u.password)
                    &&& u.created == u.updated
                    &&& !old(conn)@.has_user(u.id)
                },
    {
        if conn.username_index(&user_data.username).is_some() {
            return Err(UserError::UsernameTaken);
        }
        match User::generate_password(user_data.password.as_str()) {
            Err(_) => Err(UserError::GenericError),
            Ok(hash) => {
                let now = current_time();
                let id = random_id();
                let row = User {
                    id,
                    username: user_data.username,
                    password: hash,
                    created: now,
                    updated: now,
                };
                let ghost row_view = row@;
                let r = User::insert_row(conn, row);
                assert(r is Ok ==> conn@ == old(conn)@.with_user(row_view));
                r
            },
        }
    }

    /// Stores a user row. Fails with `UsernameTaken` if a user of its name is
    /// stored, else with `DatabaseError` if a user with its id is stored;
    /// either failure changes nothing.
    pub fn insert_row(conn: &mut Store, user: User) -> (r: Result<UserResponse, UserError>)
        requires
            old(conn).wf(),
        ensures
            final(conn).wf(),
            old(conn)@.username_taken(user.username@) ==> r == Err::<UserResponse, UserError>(
                UserError::UsernameTaken,
            ) && final(conn)@ == old(conn)@,
            !old(conn)@.username_taken(user.username@) && old(conn)@.has_user(user.id) ==> r
                == Err::<UserResponse, UserError>(UserError::DatabaseError) && final(conn)@
                == old(conn)@,
            !old(conn)@.username_taken(user.username@) && !old(conn)@.has_user(user.id) ==> r is Ok
                && r->Ok_0@ == shown(user@) && final(conn)@ == old(conn)@.with_user(user@),
    {
        if conn.username_index(&user.username).is_some() {
            return Err(UserError::UsernameTaken);
        }
        if conn.user_index(user.id).is_some() {
            return Err(UserError::DatabaseError);
        }
        let ghost before = conn@;
        let stored = user.clone();
        conn.users.push(user);
        proof {
            assert(conn@.users =~= before.users.push(stored@));
            assert(conn@ =~= before.with_user(stored@));
            lemma_with_user_consistent(before, stored@);
        }
        Ok(UserResponse::from(stored))
    }

    /// Changes a user's name and password. An empty password leaves the
    /// stored hash as it is; any other is hashed and replaces it.
    ///
    /// Fails with `UsernameTaken` if a user of the new name is stored, be it
    /// the user itself; else with `UserNotFound` if no user has this id. Past
    /// these it fails only if the password cannot be hashed
    /// (`GenericError`). A failure changes nothing.
    pub fn update(user_id: Id, user_data: UserData, conn: &mut Store) -> (r: Result<
        UserResponse,
        UserError,
    >)
        requires
            old(conn).wf(),
        ensures
            final(conn).wf(),
            old(conn)@.username_taken(user_data.username@) <==> r == Err::<UserResponse, UserError>(
                UserError::UsernameTaken,
            ),
            !old(conn)@.username_taken(user_data.username@) && !old(conn)@.has_user(user_id) <==> r
                == Err::<UserResponse, UserError>(UserError::UserNotFound),
            r is Err ==> final(conn)@ == old(conn)@,
            r matches Err(e) ==> e == UserError::UsernameTaken || e == UserError::UserNotFound || e
                == UserError::GenericError,
            !old(conn)@.username_taken(user_data.username@) && old(conn)@.has_user(user_id)
                && user_data.password@.len() == 0 ==> r is Ok && final(conn)@
                == old(conn)@.with_user_changed(user_id, user_data.username@, None),
            r matches Ok(shown_user) ==> shown_user@ == (UserResponseView {
                id: user_id,
                username: user_data.username@,
            }) && (user_data.password@.len() > 0 ==> exists|hash: Seq<char>|
                {
                    &&& bcrypt_accepts(user_data.password@, hash)
                    &&& printable_ascii(hash)
                    &&& final(conn)@ == old(conn)@.with_user_changed(
                        user_id,
                        user_data.username@,
                        Some(hash),
                    )
                }),
    {
        if conn.username_index(&user_data.username).is_some() {
            return Err(UserError::UsernameTaken);
        }
        if conn.user_index(user_id).is_none() {
            return Err(UserError::UserNotFound);
        }
        if user_data.password.as_str().is_empty() {
            User::update_row(conn, user_id, user_data.username, None)
        } else {
            match User::generate_password(user_data.password.as_str()) {
                Err(_) => Err(UserError::GenericError),
                Ok(hash) => {
                    let ghost h = hash@;
                    let r = User::update_row(conn, user_id, user_data.username, Some(hash));
                    assert(r is Ok ==> conn@ == old(conn)@.with_user_changed(
                        user_id,
                        user_data.username@,
                        Some(h),
                    ));
                    r
                },
            }
        }
    }

    /// Gives the user with this id a new name and, where one is given, a new
    /// password hash.
    ///
    /// Fails with `UsernameTaken` if a user of the new name is stored, be it
    /// the user itself; else with `UserNotFound` if no user has this id.
    /// Either failure changes nothing.
    pub fn update_row(
        conn: &mut Store,
        user_id: Id,
        username: String,
        password_hash: Option<String>,
    ) -> (r: Result<UserResponse, UserError>)
        requires
            old(conn).wf(),
        ensures
            final(conn).wf(),
            old(conn)@.username_taken(username@) ==> r == Err::<UserResponse, UserError>(
                UserError::UsernameTaken,
            ) && final(conn)@ == old(conn)@,
            !old(conn)@.username_taken(username@) && !old(conn)@.has_user(user_id) ==> r == Err::<
                UserResponse,
                UserError,
            >(UserError::UserNotFound) && final(conn)@ == old(conn)@,
            !old(conn)@.username_taken(username@) && old(conn)@.has_user(user_id) ==> r is Ok
                && r->Ok_0@ == (UserResponseView { id: user_id, username: username@ })
                && final(conn)@ == old(conn)@.with_user_changed(
                user_id,
                username@,
                crate::rows::text_of(password_hash),
            ),
    {
        let ghost before = conn@;
        if conn.username_index(&username).is_some() {
            return Err(UserError::UsernameTaken);
        }
        match conn.user_index(user_id) {
            None => Err(UserError::UserNotFound),
            Some(at) => {
                let password = match password_hash {
                    Some(h) => h,
                    None => conn.users[at].password.clone(),
                };
                let changed = User {
                    id: user_id,
                    username,
                    password,
                    created: conn.users[at].created,
                    updated: conn.users[at].updated,
                };
                let shown_user = UserResponse { id: user_id, username: changed.username.clone() };
                let ghost row = changed@;
                conn.users.set(at, changed);
                proof {
                    let new_hash = crate::rows::text_of(password_hash);
                    assert(row == changed_user(before.users[at as int], username@, new_hash));
                    lemma_user_changed(before, user_id, username@, new_hash, at as int);
                    assert(conn@.users =~= before.users.update(at as int, row));
                    assert(conn@ =~= before.with_user_changed(user_id, username@, new_hash));
                }
                Ok(shown_user)
            },
        }
    }

    /// Deletes a user and that user's memberships. Returns how many users
    /// were deleted: one, or none if no user has this id.
    pub fn destroy(conn: &mut Store, user_id: Id) -> (r: Result<usize, UserError>)
        requires
            old(conn).wf(),
        ensures
            final(conn).wf(),
            final(conn)@ == old(conn)@.without_user(user_id),
            r == Ok::<usize, UserError>(
                if old(conn)@.has_user(user_id) {
                    1usize
                } else {
                    0usize
                },
            ),
            !old(conn)@.has_user(user_id) ==> final(conn)@ == old(conn)@,
    {
        let ghost before = conn@;
        match conn.user_index(user_id) {
            None => {
                proof {
                    lemma_without_absent_user(before, user_id);
                }
                Ok(0)
            },
            Some(at) => {
                conn.users.remove(at);
                let mut kept: Vec<RoomUser> = Vec::new();
                let mut i: usize = 0;
                assert(before.rooms_users.take(0).filter(of_other_users(user_id)) =~= Seq::empty())
                    by {
                    reveal(Seq::filter);
                }
                while i < conn.rooms_users.len()
                    invariant
                        i <= conn.rooms_users.len(),
                        conn@.rooms_users == before.rooms_users,
                        views(kept@) =~= before.rooms_users.take(i as int).filter(
                            of_other_users(user_id),
                        ),
                    decreases conn.rooms_users.len() - i,
                {
                    proof {
                        lemma_filter_step(before.rooms_users, of_other_users(user_id), i as int);
                    }
                    if conn.rooms_users[i].user_id != user_id {
                        kept.push(conn.rooms_users[i].clone());
                    }
                    i += 1;
                }
                assert(before.rooms_users.take(i as int) =~= before.rooms_users);
                conn.rooms_users = kept;
                proof {
                    lemma_filter_is_remove(
                        before.users,
                        crate::store::user_id(),
                        other_users(user_id),
                        at as int,
                    );
                    assert(conn@.users =~= before.users.remove(at as int));
                    assert(conn@ =~= before.without_user(user_id));
                    lemma_without_user_consistent(before, user_id);
                }
                Ok(1)
            },
        }
    }
}

/// Deleting a user deletes all of that user's memberships and no others.
pub proof fn lemma_without_user_membership(s: StoreView, id: Id, room: Id, user: Id)
    ensures
        s.without_user(id).is_member(room, user) <==> s.is_member(room, user) && user != id,
        !s.without_user(id).has_user(id),
{
    crate::rows::lemma_holds_key_filter(
        s.rooms_users,
        crate::store::membership_pair(),
        of_other_users(id),
        (room, user),
    );
    if s.is_member(room, user) && user != id {
        let i = choose|i: int|
            0 <= i < s.rooms_users.len() && #[trigger] crate::store::membership_pair()(
                s.rooms_users[i],
            ) == (room, user);
        assert(of_other_users(id)(s.rooms_users[i]));
    }
    crate::rows::lemma_holds_key_filter(s.users, crate::store::user_id(), other_users(id), id);
}

/// A change of name that gives no password keeps the stored hash: looking
/// the user up afterwards finds the new name and the old hash. With a
/// password hash given, it finds that hash.
pub proof fn lemma_changed_user_found(
    s: StoreView,
    id: Id,
    username: Seq<char>,
    password: Option<Seq<char>>,
)
    requires
        s.consistent(),
        s.has_user(id),
        !s.username_taken(username),
    ensures
        s.with_user_changed(id, username, password).user(id) == Some(
            changed_user(s.user(id)->Some_0, username, password),
        ),
        password is None ==> s.with_user_changed(id, username, password).user(id)->Some_0.password
            == s.user(id)->Some_0.password,
        s.with_user_changed(id, username, password).user(id)->Some_0.username == username,
        s.with_user_changed(id, username, password).user_named(username) == s.with_user_changed(
            id,
            username,
            password,
        ).user(id),
{
    let at = choose|i: int|
        0 <= i < s.users.len() && #[trigger] crate::store::user_id()(s.users[i]) == id;
    let after = s.with_user_changed(id, username, password);
    lemma_row_with_at(s.users, crate::store::user_id(), at);
    lemma_user_changed(s, id, username, password, at);
    assert(after.users[at] == changed_user(s.users[at], username, password));
    lemma_row_with_at(after.users, crate::store::user_id(), at);
    lemma_row_with_at(after.users, user_name(), at);
}

/// Removing a user that is not stored changes nothing.
pub proof fn lemma_without_absent_user(before: StoreView, id: Id)
    requires
        before.consistent(),
        !before.has_user(id),
    ensures
        before.without_user(id) == before,
{
    assert forall|i: int| 0 <= i < before.users.len() implies other_users(id)(
        #[trigger] before.users[i],
    ) by {
        assert(crate::store::user_id()(before.users[i]) != id);
    }
    lemma_filter_keeps_all(before.users, other_users(id));
    assert forall|i: int| 0 <= i < before.rooms_users.len() implies of_other_users(id)(
        #[trigger] before.rooms_users[i],
    ) by {
        assert(before.has_user(before.rooms_users[i].user_id));
    }
    lemma_filter_keeps_all(before.rooms_users, of_other_users(id));
    assert(before.without_user(id) =~= before);
}

/// Changing the user at `at` to a name that nobody bears is replacing that
/// row, and keeps the tables consistent.
pub proof fn lemma_user_changed(
    before: StoreView,
    id: Id,
    username: Seq<char>,
    password: Option<Seq<char>>,
    at: int,
)
    requires
        before.consistent(),
        0 <= at < before.users.len(),
        before.users[at].id == id,
        !before.username_taken(username),
    ensures
        before.with_user_changed(id, username, password).users == before.users.update(
            at,
            changed_user(before.users[at], username, password),
        ),
        before.with_user_changed(id, username, password).consistent(),
{
    let after = before.with_user_changed(id, username, password);
    let row = changed_user(before.users[at], username, password);
    assert forall|j: int| 0 <= j < before.users.len() implies after.users[j]
        == before.users.update(at, row)[j] by {
        if j < at {
            assert(crate::store::user_id()(before.users[j]) != crate::store::user_id()(
                before.users[at],
            ));
        } else if at < j {
            assert(crate::store::user_id()(before.users[at]) != crate::store::user_id()(
                before.users[j],
            ));
        }
    }
    assert(after.users =~= before.users.update(at, row));
    lemma_distinct_update(before.users, crate::store::user_id(), at, row);
    assert(distinct_by(after.users, user_name())) by {
        assert forall|i: int, j: int| 0 <= i < j < after.users.len() implies #[trigger] user_name()(
            after.users[i],
        ) != #[trigger] user_name()(after.users[j]) by {
            assert(user_name()(before.users[i]) != user_name()(before.users[j]));
            assert(user_name()(before.users[i]) != username);
            assert(user_name()(before.users[j]) != username);
        }
    }
    assert forall|i: int| 0 <= i < after.rooms_users.len() implies after.has_user(
        (#[trigger] after.rooms_users[i]).user_id,
    ) && after.has_room(after.rooms_users[i].room_id) by {
        assert(before.has_user(before.rooms_users[i].user_id));
    }
}

} // verus!
