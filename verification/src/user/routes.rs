//! What the user endpoints answer, from the tables and the request's values.

use crate::errors::ServiceError;
use crate::rows::views;
use crate::store::{Id, Store};
use crate::trusted::{bcrypt_accepts, printable_ascii};
use crate::user::auth::auth_token;
use crate::user::model::{shown, User, UserData, UserResponse, UserView};
use crate::user::UserResponseView;
use vstd::prelude::*;

verus! {

/// `GET /users`: what is shown of every user.
pub fn list(conn: &Store) -> (r: Result<Vec<UserResponse>, ServiceError>)
    ensures
        r is Ok,
        views(r->Ok_0@) == conn@.users.map_values(|u: UserView| shown(u)),
{
    match User::find_all(conn) {
        Ok(users) => Ok(users),
        Err(e) => Err(ServiceError::from(e)),
    }
}

/// `GET /users/{id}`: what is shown of one user, or `NotFound`.
pub fn find(conn: &Store, id: Id) -> (r: Result<UserResponse, ServiceError>)
    requires
        conn.wf(),
    ensures
        match conn@.user(id) {
            None => r is Err && r->Err_0 == ServiceError::NotFound,
            Some(u) => r is Ok && r->Ok_0@ == shown(u),
        },
{
    match User::find(conn, id) {
        Ok(user) => ServiceError::found(user),
        Err(e) => Err(ServiceError::from(e)),
    }
}

/// `POST /users`: stores a user and shows it. A name that is taken is
/// answered with `Forbidden`; any other failure with `InternalServerError`.
pub fn create(conn: &mut Store, user_data: UserData) -> (r: Result<UserResponse, ServiceError>)
    requires
        old(conn).wf(),
    ensures
        final(conn).wf(),
        old(conn)@.username_taken(user_data.username@) ==> r is Err && r->Err_0
            == ServiceError::Forbidden,
        !old(conn)@.username_taken(user_data.username@) && r is Err ==> r->Err_0
            == ServiceError::InternalServerError,
        r is Err ==> final(conn)@ == old(conn)@,
        r matches Ok(shown_user) ==> exists|u: UserView|
            {
                &&& final(conn)@ == old(conn)@.with_user(u)
                &&& shown_user@ == shown(u)
                &&& u.username == user_data.username@
                &&& bcrypt_accepts(user_data.password@, u.password)
                &&& printable_ascii(u.password)
                &&& !old(conn)@.has_user(u.id)
            },
{
    match User::create(user_data, conn) {
        Ok(user) => Ok(user),
        Err(e) => Err(ServiceError::from(e)),
    }
}

/// `PUT /users/{id}`: changes a user and shows it. A name that is taken is
/// answered with `Forbidden`, an unknown id with `NotFound`.
pub fn update(conn: &mut Store, id: Id, user_data: UserData) -> (r: Result<
    UserResponse,
    ServiceError,
>)
    requires
        old(conn).wf(),
    ensures
        final(conn).wf(),
        old(conn)@.username_taken(user_data.username@) ==> r is Err && r->Err_0
            == ServiceError::Forbidden,
        !old(conn)@.username_taken(user_data.username@) && !old(conn)@.has_user(id) ==> r is Err
            && r->Err_0 == ServiceError::NotFound,
        !old(conn)@.username_taken(user_data.username@) && old(conn)@.has_user(id) && r is Err
            ==> r->Err_0 == ServiceError::InternalServerError,
        r is Err ==> final(conn)@ == old(conn)@,
        !old(conn)@.username_taken(user_data.username@) && old(conn)@.has_user(id)
            && user_data.password@.len() == 0 ==> r is Ok && final(conn)@
            == old(conn)@.with_user_changed(id, user_data.username@, None),
        r matches Ok(shown_user) ==> shown_user@ == (UserResponseView {
            id,
            username: user_data.username@,
        }) && (user_data.password@.len() > 0 ==> exists|hash: Seq<char>|
            {
                &&& bcrypt_accepts(user_data.password@, hash)
                &&& printable_ascii(hash)
                &&& final(conn)@ == old(conn)@.with_user_changed(
                    id,
                    user_data.username@,
                    Some(hash),
                )
            }),
{
    match User::update(id, user_data, conn) {
        Ok(user) => Ok(user),
        Err(e) => Err(ServiceError::from(e)),
    }
}

/// `DELETE /users/{id}`: deletes a user, or `NotFound` if there was none.
pub fn delete(conn: &mut Store, user_id: Id) -> (r: Result<(), ServiceError>)
    requires
        old(conn).wf(),
    ensures
        final(conn).wf(),
        final(conn)@ == old(conn)@.without_user(user_id),
        r == if old(conn)@.has_user(user_id) {
            Ok::<(), ServiceError>(())
        } else {
            Err::<(), ServiceError>(ServiceError::NotFound)
        },
{
    match User::destroy(conn, user_id) {
        Ok(count) => ServiceError::deleted(count),
        Err(e) => Err(ServiceError::from(e)),
    }
}

/// `POST /auth`: the token for a name and its password. An unknown name is
/// answered with `NotFound`, a password that does not match with `Forbidden`.
pub fn authenticate(conn: &Store, user_data: UserData) -> (r: Result<String, ServiceError>)
    requires
        conn.wf(),
    ensures
        match conn@.user_named(user_data.username@) {
            None => r is Err && r->Err_0 == ServiceError::NotFound,
            Some(u) => if printable_ascii(u.password) && bcrypt_accepts(
                user_data.password@,
                u.password,
            ) {
                r is Ok && r->Ok_0@ == auth_token()
            } else {
                r is Err && r->Err_0 == ServiceError::Forbidden
            },
        },
{
    match User::authenticate(conn, user_data) {
        Ok(token) => Ok(token),
        Err(e) => Err(ServiceError::from(e)),
    }
}

} // verus!
