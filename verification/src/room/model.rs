//! The room and membership tables' row types and the operations on them.

use crate::rows::{
    clone_text, id_in, lemma_distinct_update, lemma_filter_is_remove, lemma_filter_keeps_all,
    lemma_row_with_at, text_of, view_of, views,
};
use crate::store::{
    changed_room, fresh_membership, in_room, lemma_filter_memberships_consistent,
    lemma_filter_step, lemma_joined_membership, lemma_push_membership_consistent,
    lemma_with_room_consistent, lemma_without_room_consistent, other_rooms, outside_room,
    membership_pair, room_id, staying, Id, Store, StoreView, Timestamp,
};
use crate::trusted::{current_time, random_id};
use crate::user::User;
use vstd::prelude::*;

verus! {

/// A stored room.
#[derive(Debug, PartialEq)]
pub struct Room {
    pub id: Id,
    pub name: Option<String>,
    pub created: Timestamp,
    pub updated: Timestamp,
}

/// What a [`Room`] is in contracts.
pub ghost struct RoomView {
    pub id: Id,
    pub name: Option<Seq<char>>,
    pub created: Timestamp,
    pub updated: Timestamp,
}

impl View for Room {
    type V = RoomView;

    open spec fn view(&self) -> RoomView {
        RoomView {
            id: self.id,
            name: text_of(self.name),
            created: self.created,
            updated: self.updated,
        }
    }
}

impl Clone for Room {
    fn clone(&self) -> (r: Self)
        ensures
            r == *self,
    {
        Room {
            id: self.id,
            name: clone_text(&self.name),
            created: self.created,
            updated: self.updated,
        }
    }
}

/// The fields a client supplies to create or change a room.
#[derive(Debug)]
pub struct RoomData {
    pub name: Option<String>,
}

impl Clone for RoomData {
    fn clone(&self) -> (r: Self)
        ensures
            r == *self,
    {
        RoomData { name: clone_text(&self.name) }
    }
}

/// A membership row: user `user_id` is in room `room_id`.
#[derive(Debug, PartialEq)]
pub struct RoomUser {
    pub user_id: Id,
    pub room_id: Id,
    pub status: Option<String>,
    pub created: Timestamp,
    pub updated: Timestamp,
}

/// What a [`RoomUser`] is in contracts.
pub ghost struct RoomUserView {
    pub user_id: Id,
    pub room_id: Id,
    pub status: Option<Seq<char>>,
    pub created: Timestamp,
    pub updated: Timestamp,
}

impl View for RoomUser {
    type V = RoomUserView;

    open spec fn view(&self) -> RoomUserView {
        RoomUserView {
            user_id: self.user_id,
            room_id: self.room_id,
            status: text_of(self.status),
            created: self.created,
            updated: self.updated,
        }
    }
}

impl Clone for RoomUser {
    fn clone(&self) -> (r: Self)
        ensures
            r == *self,
    {
        RoomUser {
            user_id: self.user_id,
            room_id: self.room_id,
            status: clone_text(&self.status),
            created: self.created,
            updated: self.updated,
        }
    }
}

/// Why an operation on rooms failed.
#[derive(Debug, Clone, Copy, PartialEq, Eq, Structural)]
pub enum RoomError {
    GenericError,
    DatabaseError,
    RoomNotFound,
}

/// A room together with the ids of its members, as it is shown to clients.
#[derive(Debug)]
pub struct RoomDetails {
    pub id: Id,
    pub name: Option<String>,
    pub users: Vec<Id>,
}

/// What a [`RoomDetails`] is in contracts.
pub ghost struct RoomDetailsView {
    pub id: Id,
    pub name: Option<Seq<char>>,
    pub users: Seq<Id>,
}

impl View for RoomDetails {
    type V = RoomDetailsView;

    open spec fn view(&self) -> RoomDetailsView {
        RoomDetailsView { id: self.id, name: text_of(self.name), users: self.users@ }
    }
}

/// The user ids of membership rows, in order.
pub open spec fn member_ids_of(rows: Seq<RoomUserView>) -> Seq<Id> {
    rows.map_values(|m: RoomUserView| m.user_id)
}

impl RoomDetails {
    /// The user ids of membership rows, in order.
    pub fn user_ids(room_users: &Vec<RoomUser>) -> (r: Vec<Id>)
        ensures
            r@ == member_ids_of(views(room_users@)),
    {
        let mut ids: Vec<Id> = Vec::new();
        let mut i: usize = 0;
        while i < room_users.len()
            invariant
                i <= room_users.len(),
                ids.len() == i,
                forall|k: int| 0 <= k < i ==> #[trigger] ids[k] == room_users[k].user_id,
            decreases room_users.len() - i,
        {
            ids.push(room_users[i].user_id);
            i += 1;
        }
        assert(ids@ =~= member_ids_of(views(room_users@)));
        ids
    }

    /// A room with the users of its membership rows.
    pub fn new(room: Room, room_users: &Vec<RoomUser>) -> (r: RoomDetails)
        ensures
            r@ == (RoomDetailsView {
                id: room.id,
                name: room@.name,
                users: member_ids_of(views(room_users@)),
            }),
    {
        RoomDetails { id: room.id, name: room.name, users: RoomDetails::user_ids(room_users) }
    }
}

impl Room {
    /// All rooms, in storage order.
    pub fn find_all(conn: &Store) -> (r: Result<Vec<Room>, RoomError>)
        ensures
            r is Ok,
            views(r->Ok_0@) == conn@.rooms,
    {
        let mut found: Vec<Room> = Vec::new();
        let mut i: usize = 0;
        while i < conn.rooms.len()
            invariant
                i <= conn.rooms.len(),
                found@ == conn.rooms@.take(i as int),
            decreases conn.rooms.len() - i,
        {
            found.push(conn.rooms[i].clone());
            assert(conn.rooms@.take(i + 1) =~= conn.rooms@.take(i as int).push(
                conn.rooms[i as int],
            ));
            i += 1;
        }
        assert(conn.rooms@.take(i as int) =~= conn.rooms@);
        Ok(found)
    }

    /// The room with this id, if it is stored.
    pub fn find(conn: &Store, room_id: Id) -> (r: Result<Option<Room>, RoomError>)
        requires
            conn.wf(),
        ensures
            r is Ok,
            view_of(r->Ok_0) == conn@.room(room_id),
    {
        match conn.room_index(room_id) {
            Some(i) => {
                proof {
                    lemma_row_with_at(conn@.rooms, crate::store::room_id(), i as int);
                }
                Ok(Some(conn.rooms[i].clone()))
            },
            None => Ok(None),
        }
    }

    /// The membership rows of a room, in storage order.
    pub fn get_room_users(conn: &Store, room: &Room) -> (r: Result<Vec<RoomUser>, RoomError>)
        ensures
            r is Ok,
            views(r->Ok_0@) == conn@.members_of(room.id),
    {
        let mut found: Vec<RoomUser> = Vec::new();
        let mut i: usize = 0;
        assert(conn@.rooms_users.take(0).filter(in_room(room.id)) =~= Seq::empty()) by {
            reveal(Seq::filter);
        }
        while i < conn.rooms_users.len()
            invariant
                i <= conn.rooms_users.len(),
                views(found@) =~= conn@.rooms_users.take(i as int).filter(in_room(room.id)),
            decreases conn.rooms_users.len() - i,
        {
            proof {
                lemma_filter_step(conn@.rooms_users, in_room(room.id), i as int);
            }
            if conn.rooms_users[i].room_id == room.id {
                found.push(conn.rooms_users[i].clone());
            }
            i += 1;
        }
        assert(conn@.rooms_users.take(i as int) =~= conn@.rooms_users);
        Ok(found)
    }

    /// The ids of the users in a room, in storage order. Fails with
    /// `RoomNotFound` if the room is not stored.
    pub fn get_user_ids(conn: &Store, room_id: Id) -> (r: Result<Vec<Id>, RoomError>)
        ensures
            !conn@.has_room(room_id) ==> r == Err::<Vec<Id>, RoomError>(RoomError::RoomNotFound),
            conn@.has_room(room_id) ==> r is Ok && r->Ok_0@ == conn@.member_ids(room_id),
    {
        if conn.room_index(room_id).is_none() {
            return Err(RoomError::RoomNotFound);
        }
        let mut ids: Vec<Id> = Vec::new();
        let mut i: usize = 0;
        assert(conn@.rooms_users.take(0).filter(in_room(room_id)) =~= Seq::empty()) by {
            reveal(Seq::filter);
        }
        while i < conn.rooms_users.len()
            invariant
                i <= conn.rooms_users.len(),
                ids@ =~= member_ids_of(
                    conn@.rooms_users.take(i as int).filter(in_room(room_id)),
                ),
            decreases conn.rooms_users.len() - i,
        {
            proof {
                lemma_filter_step(conn@.rooms_users, in_room(room_id), i as int);
            }
            if conn.rooms_users[i].room_id == room_id {
                ids.push(conn.rooms_users[i].user_id);
            }
            i += 1;
        }
        assert(conn@.rooms_users.take(i as int) =~= conn@.rooms_users);
        Ok(ids)
    }

    /// Whether a room with this id is stored.
    pub fn is_present(conn: &Store, room_id: Id) -> (r: Result<bool, RoomError>)
        ensures
            r == Ok::<bool, RoomError>(conn@.has_room(room_id)),
    {
        Ok(conn.room_index(room_id).is_some())
    }

    /// Adds users to a room and returns those that were added. The new
    /// membership rows bear the time of the call.
    ///
    /// Fails with `RoomNotFound`, changing nothing, if the room is not stored.
    /// A candidate that names no stored user, or a user who is already a
    /// member, is passed over in silence.
    pub fn add_users(conn: &mut Store, existing_room_id: Id, user_ids: Vec<Id>) -> (r: Result<
        Vec<Id>,
        RoomError,
    >)
        requires
            old(conn).wf(),
        ensures
            final(conn).wf(),
            !old(conn)@.has_room(existing_room_id) ==> r == Err::<Vec<Id>, RoomError>(
                RoomError::RoomNotFound,
            ) && final(conn)@ == old(conn)@,
            old(conn)@.has_room(existing_room_id) ==> r is Ok && r->Ok_0@ == old(conn)@.admitted(
                existing_room_id,
                user_ids@,
            ) && exists|now: Timestamp|
                final(conn)@ == old(conn)@.joined(existing_room_id, r->Ok_0@, now),
    {
        let now = current_time();
        Room::add_users_at(conn, existing_room_id, user_ids, now)
    }

    /// Adds users to a room at time `now` and returns those that were added.
    ///
    /// Fails with `RoomNotFound`, changing nothing, if the room is not stored.
    /// A candidate that names no stored user, or a user who is already a
    /// member, is passed over in silence.
    pub fn add_users_at(
        conn: &mut Store,
        existing_room_id: Id,
        user_ids: Vec<Id>,
        now: Timestamp,
    ) -> (r: Result<Vec<Id>, RoomError>)
        requires
            old(conn).wf(),
        ensures
            final(conn).wf(),
            !old(conn)@.has_room(existing_room_id) ==> r == Err::<Vec<Id>, RoomError>(
                RoomError::RoomNotFound,
            ) && final(conn)@ == old(conn)@,
            old(conn)@.has_room(existing_room_id) ==> r is Ok && r->Ok_0@ == old(conn)@.admitted(
                existing_room_id,
                user_ids@,
            ) && final(conn)@ == old(conn)@.joined(existing_room_id, r->Ok_0@, now),
    {
        let ghost before = conn@;
        match Room::is_present(conn, existing_room_id) {
            Ok(true) => {},
            _ => {
                return Err(RoomError::RoomNotFound);
            },
        }
        let mut added_users: Vec<Id> = Vec::new();
        assert(conn@ =~= before.joined(existing_room_id, added_users@, now));
        let mut i: usize = 0;
        while i < user_ids.len()
            invariant
                i <= user_ids.len(),
                before.has_room(existing_room_id),
                added_users@ == before.admitted(existing_room_id, user_ids@.take(i as int)),
                conn@ == before.joined(existing_room_id, added_users@, now),
                conn.wf(),
            decreases user_ids.len() - i,
        {
            let user_id_to_add = user_ids[i];
            let ghost earlier = added_users@;
            proof {
                lemma_admitted_step(before, existing_room_id, user_ids@, i as int);
                lemma_joined_membership(
                    before,
                    existing_room_id,
                    earlier,
                    now,
                    existing_room_id,
                    user_id_to_add,
                );
                assert(conn@.users == before.users && conn@.rooms == before.rooms);
            }
            let known = match User::is_present(conn, user_id_to_add) {
                Ok(b) => b,
                Err(_) => false,
            };
            if known && !conn.is_member(existing_room_id, user_id_to_add) {
                conn.rooms_users.push(
                    RoomUser {
                        user_id: user_id_to_add,
                        room_id: existing_room_id,
                        status: None,
                        created: now,
                        updated: now,
                    },
                );
                added_users.push(user_id_to_add);
                proof {
                    let row = fresh_membership(existing_room_id, user_id_to_add, now);
                    lemma_joined_one_more(before, existing_room_id, earlier, user_id_to_add, now);
                    lemma_push_membership_consistent(
                        before.joined(existing_room_id, earlier, now),
                        row,
                    );
                    assert(conn@.rooms_users =~= before.joined(
                        existing_room_id,
                        earlier,
                        now,
                    ).rooms_users.push(row));
                }
            }
            i += 1;
        }
        assert(user_ids@.take(i as int) =~= user_ids@);
        Ok(added_users)
    }

    /// Removes users from a room and returns how many membership rows were
    /// deleted.
    ///
    /// Fails with `RoomNotFound`, changing nothing, if the room is not stored.
    pub fn remove_users(conn: &mut Store, room_id: Id, user_ids: Vec<Id>) -> (r: Result<
        usize,
        RoomError,
    >)
        requires
            old(conn).wf(),
        ensures
            final(conn).wf(),
            !old(conn)@.has_room(room_id) ==> r == Err::<usize, RoomError>(RoomError::RoomNotFound)
                && final(conn)@ == old(conn)@,
            old(conn)@.has_room(room_id) ==> r is Ok && final(conn)@ == old(conn)@.left(
                room_id,
                user_ids@,
            ) && r->Ok_0 == old(conn)@.rooms_users.len() - final(conn)@.rooms_users.len(),
    {
        let ghost before = conn@;
        if conn.room_index(room_id).is_none() {
            return Err(RoomError::RoomNotFound);
        }
        let mut kept: Vec<RoomUser> = Vec::new();
        let mut count: usize = 0;
        let mut i: usize = 0;
        assert(before.rooms_users.take(0).filter(staying(room_id, user_ids@)) =~= Seq::empty())
            by {
            reveal(Seq::filter);
        }
        while i < conn.rooms_users.len()
            invariant
                i <= conn.rooms_users.len(),
                conn@ == before,
                views(kept@) =~= before.rooms_users.take(i as int).filter(
                    staying(room_id, user_ids@),
                ),
                count + kept.len() == i,
            decreases conn.rooms_users.len() - i,
        {
            proof {
                lemma_filter_step(before.rooms_users, staying(room_id, user_ids@), i as int);
            }
            if conn.rooms_users[i].room_id == room_id && id_in(
                &user_ids,
                conn.rooms_users[i].user_id,
            ) {
                count += 1;
            } else {
                kept.push(conn.rooms_users[i].clone());
            }
            i += 1;
        }
        assert(before.rooms_users.take(i as int) =~= before.rooms_users);
        conn.rooms_users = kept;
        proof {
            lemma_filter_memberships_consistent(before, staying(room_id, user_ids@));
            assert(conn@ =~= before.left(room_id, user_ids@));
        }
        Ok(count)
    }

    /// Stores a new room under a fresh id, with the time of the call as its
    /// time of creation. Fails with `DatabaseError`, changing nothing, where
    /// the id turns out to be in use.
    pub fn create(room_data: RoomData, conn: &mut Store) -> (r: Result<Room, RoomError>)
        requires
            old(conn).wf(),
        ensures
            final(conn).wf(),
            r matches Ok(room) ==> !old(conn)@.has_room(room.id) && room@.name == text_of(
                room_data.name,
            ) && room.created == room.updated && final(conn)@ == old(conn)@.with_room(room@),
            r matches Err(e) ==> e == RoomError::DatabaseError && final(conn)@ == old(conn)@,
    {
        let now = current_time();
        let id = random_id();
        Room::insert_row(conn, Room { id, name: room_data.name, created: now, updated: now })
    }

    /// Stores a room. Fails with `DatabaseError`, changing nothing, if a room
    /// with its id is stored already.
    pub fn insert_row(conn: &mut Store, room: Room) -> (r: Result<Room, RoomError>)
        requires
            old(conn).wf(),
        ensures
            final(conn).wf(),
            old(conn)@.has_room(room.id) ==> r == Err::<Room, RoomError>(RoomError::DatabaseError)
                && final(conn)@ == old(conn)@,
            !old(conn)@.has_room(room.id) ==> r == Ok::<Room, RoomError>(room) && final(conn)@
                == old(conn)@.with_room(room@),
    {
        if conn.room_index(room.id).is_some() {
            return Err(RoomError::DatabaseError);
        }
        let ghost before = conn@;
        let stored = room.clone();
        conn.rooms.push(room);
        proof {
            assert(conn@.rooms =~= before.rooms.push(stored@));
            assert(conn@ =~= before.with_room(stored@));
            lemma_with_room_consistent(before, stored@);
        }
        Ok(stored)
    }

    /// Deletes a room and the memberships in it. Returns how many rooms were
    /// deleted: one, or none if no room has this id.
    pub fn destroy(conn: &mut Store, room_id: Id) -> (r: Result<usize, RoomError>)
        requires
            old(conn).wf(),
        ensures
            final(conn).wf(),
            final(conn)@ == old(conn)@.without_room(room_id),
            r == Ok::<usize, RoomError>(
                if old(conn)@.has_room(room_id) {
                    1usize
                } else {
                    0usize
                },
            ),
            !old(conn)@.has_room(room_id) ==> final(conn)@ == old(conn)@,
    {
        let ghost before = conn@;
        match conn.room_index(room_id) {
            None => {
                proof {
                    lemma_without_absent_room(before, room_id);
                }
                Ok(0)
            },
            Some(at) => {
                conn.rooms.remove(at);
                let mut kept: Vec<RoomUser> = Vec::new();
                let mut i: usize = 0;
                assert(before.rooms_users.take(0).filter(outside_room(room_id)) =~= Seq::empty())
                    by {
                    reveal(Seq::filter);
                }
                while i < conn.rooms_users.len()
                    invariant
                        i <= conn.rooms_users.len(),
                        conn@.rooms_users == before.rooms_users,
                        views(kept@) =~= before.rooms_users.take(i as int).filter(
                            outside_room(room_id),
                        ),
                    decreases conn.rooms_users.len() - i,
                {
                    proof {
                        lemma_filter_step(before.rooms_users, outside_room(room_id), i as int);
                    }
                    if conn.rooms_users[i].room_id != room_id {
                        kept.push(conn.rooms_users[i].clone());
                    }
                    i += 1;
                }
                assert(before.rooms_users.take(i as int) =~= before.rooms_users);
                conn.rooms_users = kept;
                proof {
                    lemma_filter_is_remove(
                        before.rooms,
                        crate::store::room_id(),
                        other_rooms(room_id),
                        at as int,
                    );
                    assert(conn@.rooms =~= before.rooms.remove(at as int));
                    assert(conn@ =~= before.without_room(room_id));
                    lemma_without_room_consistent(before, room_id);
                }
                Ok(1)
            },
        }
    }

    /// Changes a room: a name that is given replaces the stored one, a name
    /// that is absent leaves it. Fails with `RoomNotFound`, changing nothing,
    /// if the room is not stored.
    pub fn update(conn: &mut Store, room_id: Id, room_data: RoomData) -> (r: Result<
        Room,
        RoomError,
    >)
        requires
            old(conn).wf(),
        ensures
            final(conn).wf(),
            !old(conn)@.has_room(room_id) ==> r == Err::<Room, RoomError>(RoomError::RoomNotFound)
                && final(conn)@ == old(conn)@,
            old(conn)@.has_room(room_id) ==> r is Ok && Some(r->Ok_0@) == final(conn)@.room(
                room_id,
            ) && r->Ok_0@ == changed_room(
                old(conn)@.room(room_id)->Some_0,
                text_of(room_data.name),
            ) && final(conn)@ == old(conn)@.with_room_changed(room_id, text_of(room_data.name)),
    {
        let ghost before = conn@;
        match conn.room_index(room_id) {
            None => Err(RoomError::RoomNotFound),
            Some(at) => {
                let name = match room_data.name {
                    Some(n) => Some(n),
                    None => clone_text(&conn.rooms[at].name),
                };
                let changed = Room {
                    id: room_id,
                    name,
                    created: conn.rooms[at].created,
                    updated: conn.rooms[at].updated,
                };
                let shown = changed.clone();
                conn.rooms.set(at, changed);
                proof {
                    lemma_row_with_at(before.rooms, crate::store::room_id(), at as int);
                    assert(shown@ == changed_room(
                        before.rooms[at as int],
                        text_of(room_data.name),
                    ));
                    lemma_room_changed(before, room_id, text_of(room_data.name), at as int);
                    assert(conn@.rooms =~= before.rooms.update(at as int, shown@));
                    assert(conn@ =~= before.with_room_changed(room_id, text_of(room_data.name)));
                    lemma_row_with_at(conn@.rooms, crate::store::room_id(), at as int);
                }
                Ok(shown)
            },
        }
    }
}

/// One step of admitting: the next candidate is admitted if it names a stored
/// user who is no member of the room and was not admitted before.
pub proof fn lemma_admitted_step(s: StoreView, room: Id, candidates: Seq<Id>, i: int)
    requires
        0 <= i < candidates.len(),
    ensures
        s.admitted(room, candidates.take(i + 1)) == if s.has_user(candidates[i]) && !s.is_member(
            room,
            candidates[i],
        ) && !s.admitted(room, candidates.take(i)).contains(candidates[i]) {
            s.admitted(room, candidates.take(i)).push(candidates[i])
        } else {
            s.admitted(room, candidates.take(i))
        },
{
    assert(candidates.take(i + 1).drop_last() =~= candidates.take(i));
    assert(candidates.take(i + 1).last() == candidates[i]);
}

/// One more user joining appends that user's membership row.
pub proof fn lemma_joined_one_more(
    s: StoreView,
    room: Id,
    earlier: Seq<Id>,
    user: Id,
    now: Timestamp,
)
    ensures
        s.joined(room, earlier.push(user), now) == (StoreView {
            rooms_users: s.joined(room, earlier, now).rooms_users.push(
                fresh_membership(room, user, now),
            ),
            ..s
        }),
{
    assert(s.joined(room, earlier.push(user), now).rooms_users =~= s.joined(
        room,
        earlier,
        now,
    ).rooms_users.push(fresh_membership(room, user, now)));
}

/// Who is admitted: exactly the candidates that name a stored user who is not
/// yet a member of the room.
pub proof fn lemma_admitted_contains(s: StoreView, room: Id, candidates: Seq<Id>, user: Id)
    ensures
        s.admitted(room, candidates).contains(user) <==> candidates.contains(user) && s.has_user(
            user,
        ) && !s.is_member(room, user),
    decreases candidates.len(),
{
    if candidates.len() > 0 {
        let front = candidates.drop_last();
        let earlier = s.admitted(room, front);
        let c = candidates.last();
        lemma_admitted_contains(s, room, front, user);
        if candidates.contains(user) {
            let i = choose|i: int| 0 <= i < candidates.len() && candidates[i] == user;
            if i < front.len() {
                assert(front[i] == user);
            }
        }
        if front.contains(user) {
            let i = choose|i: int| 0 <= i < front.len() && front[i] == user;
            assert(candidates[i] == user);
        }
        assert(candidates[candidates.len() - 1] == c);
        if s.has_user(c) && !s.is_member(room, c) && !earlier.contains(c) {
            let after = earlier.push(c);
            assert(after[earlier.len() as int] == c);
            if earlier.contains(user) {
                let i = choose|i: int| 0 <= i < earlier.len() && earlier[i] == user;
                assert(after[i] == user);
            }
            if after.contains(user) {
                let i = choose|i: int| 0 <= i < after.len() && after[i] == user;
                if i < earlier.len() {
                    assert(earlier[i] == user);
                }
            }
        }
    }
}

/// Nobody is admitted twice.
pub proof fn lemma_admitted_once(s: StoreView, room: Id, candidates: Seq<Id>)
    ensures
        s.admitted(room, candidates).no_duplicates(),
    decreases candidates.len(),
{
    if candidates.len() > 0 {
        lemma_admitted_once(s, room, candidates.drop_last());
    }
}

/// Where no candidate can be admitted, joining admits nobody and changes
/// nothing.
pub proof fn lemma_nobody_admitted(s: StoreView, room: Id, candidates: Seq<Id>, now: Timestamp)
    requires
        forall|i: int|
            0 <= i < candidates.len() ==> !s.has_user(#[trigger] candidates[i]) || s.is_member(
                room,
                candidates[i],
            ),
    ensures
        s.admitted(room, candidates) == Seq::<Id>::empty(),
        s.joined(room, s.admitted(room, candidates), now) == s,
{
    let admitted = s.admitted(room, candidates);
    if admitted.len() > 0 {
        let u = admitted[0];
        assert(admitted.contains(u));
        lemma_admitted_contains(s, room, candidates, u);
        let i = choose|i: int| 0 <= i < candidates.len() && candidates[i] == u;
        assert(!s.has_user(candidates[i]) || s.is_member(room, candidates[i]));
    }
    assert(admitted =~= Seq::<Id>::empty());
    assert(s.joined(room, admitted, now) =~= s);
}

/// Adding users who are already in the room is a no-op: a second join with
/// the same candidates admits nobody and leaves the tables as the first join
/// left them.
pub proof fn lemma_join_is_idempotent(
    s: StoreView,
    room: Id,
    candidates: Seq<Id>,
    now: Timestamp,
    later: Timestamp,
)
    ensures
        ({
            let once = s.joined(room, s.admitted(room, candidates), now);
            &&& once.admitted(room, candidates) == Seq::<Id>::empty()
            &&& once.joined(room, once.admitted(room, candidates), later) == once
        }),
{
    let first = s.admitted(room, candidates);
    let once = s.joined(room, first, now);
    assert forall|i: int| 0 <= i < candidates.len() implies !once.has_user(
        #[trigger] candidates[i],
    ) || once.is_member(room, candidates[i]) by {
        let u = candidates[i];
        lemma_admitted_contains(s, room, candidates, u);
        lemma_joined_membership(s, room, first, now, room, u);
        assert(once.users == s.users);
    }
    lemma_nobody_admitted(once, room, candidates, later);
}

/// Joining creates membership rows for stored users only: an id that names
/// no user is not admitted and is no member afterwards, and every candidate
/// that names a user is a member afterwards.
pub proof fn lemma_join_admits_users_only(
    s: StoreView,
    room: Id,
    candidates: Seq<Id>,
    now: Timestamp,
    user: Id,
)
    requires
        s.consistent(),
    ensures
        !s.has_user(user) ==> !s.admitted(room, candidates).contains(user) && !s.joined(
            room,
            s.admitted(room, candidates),
            now,
        ).is_member(room, user),
        s.has_user(user) && candidates.contains(user) ==> s.joined(
            room,
            s.admitted(room, candidates),
            now,
        ).is_member(room, user),
        s.joined(room, s.admitted(room, candidates), now).rooms_users.len()
            == s.rooms_users.len() + s.admitted(room, candidates).len(),
{
    lemma_admitted_contains(s, room, candidates, user);
    lemma_joined_membership(s, room, s.admitted(room, candidates), now, room, user);
    if s.is_member(room, user) {
        let i = choose|i: int|
            0 <= i < s.rooms_users.len() && #[trigger] membership_pair()(s.rooms_users[i]) == (
                room,
                user,
            );
        assert(s.has_user(s.rooms_users[i].user_id));
    }
}

/// Users who leave without being members delete no row: the tables stay as
/// they are.
pub proof fn lemma_strangers_leave(s: StoreView, room: Id, leaving: Seq<Id>)
    requires
        forall|i: int| 0 <= i < leaving.len() ==> !s.is_member(room, #[trigger] leaving[i]),
    ensures
        s.left(room, leaving) == s,
{
    let pred = staying(room, leaving);
    assert forall|i: int| 0 <= i < s.rooms_users.len() implies pred(
        #[trigger] s.rooms_users[i],
    ) by {
        let m = s.rooms_users[i];
        if m.room_id == room && leaving.contains(m.user_id) {
            let k = choose|k: int| 0 <= k < leaving.len() && leaving[k] == m.user_id;
            assert(membership_pair()(s.rooms_users[i]) == (room, leaving[k]));
            assert(s.is_member(room, leaving[k]));
        }
    }
    lemma_filter_keeps_all(s.rooms_users, pred);
    assert(s.left(room, leaving) =~= s);
}

/// After users left a room, they are no members of it, and every other
/// membership is as it was.
pub proof fn lemma_left_membership(
    s: StoreView,
    room: Id,
    leaving: Seq<Id>,
    other_room: Id,
    user: Id,
)
    ensures
        s.left(room, leaving).is_member(other_room, user) <==> s.is_member(other_room, user) && !(
        other_room == room && leaving.contains(user)),
{
    let pred = staying(room, leaving);
    crate::rows::lemma_holds_key_filter(s.rooms_users, membership_pair(), pred, (other_room, user));
    if s.is_member(other_room, user) && !(other_room == room && leaving.contains(user)) {
        let i = choose|i: int|
            0 <= i < s.rooms_users.len() && #[trigger] membership_pair()(s.rooms_users[i]) == (
                other_room,
                user,
            );
        assert(pred(s.rooms_users[i]));
    }
}

/// One user leaving a room deletes one membership row if the user was a
/// member, and none otherwise.
pub proof fn lemma_one_leaves(before: StoreView, room: Id, user: Id)
    requires
        before.consistent(),
    ensures
        before.rooms_users.len() - before.left(room, seq![user]).rooms_users.len()
            == if before.is_member(room, user) {
            1int
        } else {
            0int
        },
{
    let pred = staying(room, seq![user]);
    assert forall|m: RoomUserView| #[trigger] pred(m) <==> membership_pair()(m) != (room, user) by {
        assert(seq![user].contains(m.user_id) <==> m.user_id == user) by {
            if m.user_id == user {
                assert(seq![user][0] == user);
            }
        }
    }
    if before.is_member(room, user) {
        let at = choose|i: int|
            0 <= i < before.rooms_users.len() && #[trigger] membership_pair()(
                before.rooms_users[i],
            ) == (room, user);
        lemma_filter_is_remove(before.rooms_users, membership_pair(), pred, at);
    } else {
        assert forall|i: int| 0 <= i < before.rooms_users.len() implies pred(
            #[trigger] before.rooms_users[i],
        ) by {
            assert(membership_pair()(before.rooms_users[i]) != (room, user));
        }
        lemma_filter_keeps_all(before.rooms_users, pred);
    }
}

/// Removing a room that is not stored changes nothing.
pub proof fn lemma_without_absent_room(before: StoreView, id: Id)
    requires
        before.consistent(),
        !before.has_room(id),
    ensures
        before.without_room(id) == before,
{
    assert forall|i: int| 0 <= i < before.rooms.len() implies other_rooms(id)(
        #[trigger] before.rooms[i],
    ) by {
        assert(crate::store::room_id()(before.rooms[i]) != id);
    }
    lemma_filter_keeps_all(before.rooms, other_rooms(id));
    assert forall|i: int| 0 <= i < before.rooms_users.len() implies outside_room(id)(
        #[trigger] before.rooms_users[i],
    ) by {
        assert(before.has_room(before.rooms_users[i].room_id));
    }
    lemma_filter_keeps_all(before.rooms_users, outside_room(id));
    assert(before.without_room(id) =~= before);
}

/// Changing the room at `at` is replacing that row, and keeps the tables
/// consistent.
pub proof fn lemma_room_changed(before: StoreView, id: Id, name: Option<Seq<char>>, at: int)
    requires
        before.consistent(),
        0 <= at < before.rooms.len(),
        before.rooms[at].id == id,
    ensures
        before.with_room_changed(id, name).rooms == before.rooms.update(
            at,
            changed_room(before.rooms[at], name),
        ),
        before.with_room_changed(id, name).consistent(),
{
    let after = before.with_room_changed(id, name);
    let row = changed_room(before.rooms[at], name);
    assert forall|j: int| 0 <= j < before.rooms.len() implies after.rooms[j]
        == before.rooms.update(at, row)[j] by {
        if j < at {
            assert(crate::store::room_id()(before.rooms[j]) != crate::store::room_id()(
                before.rooms[at],
            ));
        } else if at < j {
            assert(crate::store::room_id()(before.rooms[at]) != crate::store::room_id()(
                before.rooms[j],
            ));
        }
    }
    assert(after.rooms =~= before.rooms.update(at, row));
    lemma_distinct_update(before.rooms, crate::store::room_id(), at, row);
    assert forall|i: int| 0 <= i < after.rooms_users.len() implies after.has_user(
        (#[trigger] after.rooms_users[i]).user_id,
    ) && after.has_room(after.rooms_users[i].room_id) by {
        assert(before.has_room(before.rooms_users[i].room_id));
    }
}

} // verus!
