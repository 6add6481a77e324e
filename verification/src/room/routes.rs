//! What the room endpoints answer, from the tables and the request's values.

use crate::errors::ServiceError;
use crate::room::model::{Room, RoomData, RoomDetails, RoomDetailsView};
use crate::rows::{text_of, views};
use crate::store::{changed_room, Id, Store};
use vstd::prelude::*;

verus! {

/// The body of a request to add a user to a room.
#[derive(Debug)]
pub struct RoomUserData {
    pub id: Id,
}

/// `GET /rooms`: all rooms.
pub fn list(conn: &Store) -> (r: Result<Vec<Room>, ServiceError>)
    ensures
        r is Ok,
        views(r->Ok_0@) == conn@.rooms,
{
    match Room::find_all(conn) {
        Ok(rooms) => Ok(rooms),
        Err(e) => Err(ServiceError::from(e)),
    }
}

/// A room as it is shown: the room with the ids of its members.
pub fn get_json_response(conn: &Store, room: Room) -> (r: Result<RoomDetails, ServiceError>)
    ensures
        r is Ok,
        r->Ok_0@ == (RoomDetailsView {
            id: room.id,
            name: room@.name,
            users: conn@.member_ids(room.id),
        }),
{
    match Room::get_room_users(conn, &room) {
        Ok(room_users) => Ok(RoomDetails::new(room, &room_users)),
        Err(e) => Err(ServiceError::from(e)),
    }
}

/// `GET /rooms/{id}`: the room with its members, or `NotFound`.
pub fn find(conn: &Store, id: Id) -> (r: Result<RoomDetails, ServiceError>)
    requires
        conn.wf(),
    ensures
        match conn@.room(id) {
            None => r is Err && r->Err_0 == ServiceError::NotFound,
            Some(room) => r is Ok && r->Ok_0@ == (RoomDetailsView {
                id: room.id,
                name: room.name,
                users: conn@.member_ids(room.id),
            }),
        },
{
    match Room::find(conn, id) {
        Ok(Some(room)) => get_json_response(conn, room),
        Ok(None) => Err(ServiceError::NotFound),
        Err(e) => Err(ServiceError::from(e)),
    }
}

/// `POST /rooms`: stores a room and shows it. A new room has no members.
pub fn create(conn: &mut Store, room_data: RoomData) -> (r: Result<RoomDetails, ServiceError>)
    requires
        old(conn).wf(),
    ensures
        final(conn).wf(),
        r matches Err(e) ==> e == ServiceError::InternalServerError && final(conn)@ == old(conn)@,
        r matches Ok(shown) ==> {
            &&& shown@.name == text_of(room_data.name)
            &&& shown@.users == final(conn)@.member_ids(shown.id)
            &&& !old(conn)@.has_room(shown.id)
            &&& final(conn)@.rooms.len() == old(conn)@.rooms.len() + 1
            &&& final(conn)@.rooms.last().id == shown.id
        },
{
    match Room::create(room_data, conn) {
        Ok(room) => get_json_response(conn, room),
        Err(e) => Err(ServiceError::from(e)),
    }
}

/// `PUT /rooms/{id}`: changes a room and shows it, or `NotFound`.
pub fn update(conn: &mut Store, id: Id, room_data: RoomData) -> (r: Result<
    RoomDetails,
    ServiceError,
>)
    requires
        old(conn).wf(),
    ensures
        final(conn).wf(),
        !old(conn)@.has_room(id) ==> r is Err && r->Err_0 == ServiceError::NotFound
            && final(conn)@ == old(conn)@,
        old(conn)@.has_room(id) ==> r is Ok && final(conn)@ == old(conn)@.with_room_changed(
            id,
            text_of(room_data.name),
        ) && r->Ok_0@ == (RoomDetailsView {
            id,
            name: changed_room(old(conn)@.room(id)->Some_0, text_of(room_data.name)).name,
            users: old(conn)@.member_ids(id),
        }),
{
    match Room::update(conn, id, room_data) {
        Ok(room) => {
            proof {
                crate::rows::lemma_row_with_holds(old(conn)@.rooms, crate::store::room_id(), id);
            }
            get_json_response(conn, room)
        },
        Err(e) => Err(ServiceError::from(e)),
    }
}

/// `DELETE /rooms/{id}`: deletes a room, or `NotFound` if there was none.
pub fn delete(conn: &mut Store, room_id: Id) -> (r: Result<(), ServiceError>)
    requires
        old(conn).wf(),
    ensures
        final(conn).wf(),
        final(conn)@ == old(conn)@.without_room(room_id),
        r == if old(conn)@.has_room(room_id) {
            Ok::<(), ServiceError>(())
        } else {
            Err::<(), ServiceError>(ServiceError::NotFound)
        },
{
    match Room::destroy(conn, room_id) {
        Ok(count) => ServiceError::deleted(count),
        Err(e) => Err(ServiceError::from(e)),
    }
}

/// `POST /rooms/{id}/users`: adds one user to a room. It answers `NotFound`
/// if the room is not stored; a user that is unknown or already a member is
/// passed over in silence.
pub fn add_user(conn: &mut Store, room_id: Id, user_data: RoomUserData) -> (r: Result<
    (),
    ServiceError,
>)
    requires
        old(conn).wf(),
    ensures
        final(conn).wf(),
        !old(conn)@.has_room(room_id) ==> r == Err::<(), ServiceError>(ServiceError::NotFound)
            && final(conn)@ == old(conn)@,
        old(conn)@.has_room(room_id) ==> r is Ok && exists|now: crate::store::Timestamp|
            final(conn)@ == old(conn)@.joined(
                room_id,
                old(conn)@.admitted(room_id, seq![user_data.id]),
                now,
            ),
{
    let mut user_ids: Vec<Id> = Vec::new();
    user_ids.push(user_data.id);
    assert(user_ids@ =~= seq![user_data.id]);
    match Room::add_users(conn, room_id, user_ids) {
        Ok(_) => Ok(()),
        Err(e) => Err(ServiceError::from(e)),
    }
}

/// `GET /rooms/{id}/users`: the ids of a room's members, or `NotFound`.
pub fn get_users(conn: &Store, room_id: Id) -> (r: Result<Vec<Id>, ServiceError>)
    requires
        conn.wf(),
    ensures
        !conn@.has_room(room_id) ==> r == Err::<Vec<Id>, ServiceError>(ServiceError::NotFound),
        conn@.has_room(room_id) ==> r is Ok && r->Ok_0@ == conn@.member_ids(room_id),
{
    let possible_room = match Room::find(conn, room_id) {
        Ok(room) => room,
        Err(e) => {
            return Err(ServiceError::from(e));
        },
    };
    let room = match possible_room {
        None => {
            return Err(ServiceError::NotFound);
        },
        Some(room) => room,
    };
    proof {
        crate::rows::lemma_row_with_holds(conn@.rooms, crate::store::room_id(), room_id);
    }
    match Room::get_room_users(conn, &room) {
        Ok(room_users) => Ok(RoomDetails::user_ids(&room_users)),
        Err(e) => Err(ServiceError::from(e)),
    }
}

/// `DELETE /rooms/{room_id}/users/{user_id}`: removes one user from a room.
/// It answers `NotFound` if the room is not stored or the user was no member.
pub fn remove_user(conn: &mut Store, room_id: Id, user_id: Id) -> (r: Result<(), ServiceError>)
    requires
        old(conn).wf(),
    ensures
        final(conn).wf(),
        r == if old(conn)@.is_member(room_id, user_id) {
            Ok::<(), ServiceError>(())
        } else {
            Err::<(), ServiceError>(ServiceError::NotFound)
        },
        !old(conn)@.has_room(room_id) ==> final(conn)@ == old(conn)@,
        old(conn)@.has_room(room_id) ==> final(conn)@ == old(conn)@.left(room_id, seq![user_id]),
{
    let mut user_ids: Vec<Id> = Vec::new();
    user_ids.push(user_id);
    assert(user_ids@ =~= seq![user_id]);
    proof {
        crate::room::model::lemma_one_leaves(old(conn)@, room_id, user_id);
    }
    match Room::remove_users(conn, room_id, user_ids) {
        Ok(count) => ServiceError::deleted(count),
        Err(e) => Err(ServiceError::from(e)),
    }
}

} // verus!
