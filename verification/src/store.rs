//! The service's persistent state: four tables, each in insertion order,
//! with the invariant that ties them together and the changes that the
//! operations make to them.

use crate::message::{Message, MessageView};
use crate::room::model::member_ids_of;
use crate::room::{Room, RoomUser, RoomUserView, RoomView};
use crate::rows::{
    distinct_by, holds_key, lemma_distinct_filter, lemma_distinct_push, lemma_filter_members,
    lemma_holds_key_filter, lemma_holds_key_push, row_with, views,
};
use crate::user::{User, UserView};
use vstd::prelude::*;

verus! {

/// A row identifier: the 128 bits of a UUID.
pub type Id = u128;

/// A point in time, in microseconds since the Unix epoch.
pub type Timestamp = i64;

/// The tables. Rows stand in the order in which they were inserted.
pub struct Store {
    pub users: Vec<User>,
    pub rooms: Vec<Room>,
    pub rooms_users: Vec<RoomUser>,
    pub messages: Vec<Message>,
}

/// What a [`Store`] is in contracts: the rows of each table, in order.
pub ghost struct StoreView {
    pub users: Seq<UserView>,
    pub rooms: Seq<RoomView>,
    pub rooms_users: Seq<RoomUserView>,
    pub messages: Seq<MessageView>,
}

impl View for Store {
    type V = StoreView;

    open spec fn view(&self) -> StoreView {
        StoreView {
            users: views(self.users@),
            rooms: views(self.rooms@),
            rooms_users: views(self.rooms_users@),
            messages: views(self.messages@),
        }
    }
}

/// A user's key: its id.
pub open spec fn user_id() -> spec_fn(UserView) -> Id {
    |u: UserView| u.id
}

/// A user's second key: its name.
pub open spec fn user_name() -> spec_fn(UserView) -> Seq<char> {
    |u: UserView| u.username
}

/// A room's key: its id.
pub open spec fn room_id() -> spec_fn(RoomView) -> Id {
    |r: RoomView| r.id
}

/// A membership row's key: the room and the user it links.
pub open spec fn membership_pair() -> spec_fn(RoomUserView) -> (Id, Id) {
    |m: RoomUserView| (m.room_id, m.user_id)
}

/// A message's key: its id.
pub open spec fn message_id() -> spec_fn(MessageView) -> Id {
    |m: MessageView| m.id
}

/// The membership rows of one room.
pub open spec fn in_room(room: Id) -> spec_fn(RoomUserView) -> bool {
    |m: RoomUserView| m.room_id == room
}

/// The membership rows of all rooms but one.
pub open spec fn outside_room(room: Id) -> spec_fn(RoomUserView) -> bool {
    |m: RoomUserView| m.room_id != room
}

/// The membership rows of all users but one.
pub open spec fn of_other_users(user: Id) -> spec_fn(RoomUserView) -> bool {
    |m: RoomUserView| m.user_id != user
}

/// The membership rows that stay when `leaving` leave `room`.
pub open spec fn staying(room: Id, leaving: Seq<Id>) -> spec_fn(RoomUserView) -> bool {
    |m: RoomUserView| !(m.room_id == room && leaving.contains(m.user_id))
}

/// The users other than one.
pub open spec fn other_users(user: Id) -> spec_fn(UserView) -> bool {
    |u: UserView| u.id != user
}

/// The rooms other than one.
pub open spec fn other_rooms(room: Id) -> spec_fn(RoomView) -> bool {
    |r: RoomView| r.id != room
}

/// The messages other than one.
pub open spec fn other_messages(message: Id) -> spec_fn(MessageView) -> bool {
    |m: MessageView| m.id != message
}

/// The messages of one room.
pub open spec fn posted_in(room: Id) -> spec_fn(MessageView) -> bool {
    |m: MessageView| m.room_id == room
}

/// The membership row that joining a room creates.
pub open spec fn fresh_membership(room: Id, user: Id, now: Timestamp) -> RoomUserView {
    RoomUserView { user_id: user, room_id: room, status: None, created: now, updated: now }
}

/// A user row after a change of name and, where one is given, of password hash.
pub open spec fn changed_user(
    u: UserView,
    username: Seq<char>,
    password: Option<Seq<char>>,
) -> UserView {
    UserView {
        username,
        password: match password {
            Some(p) => p,
            None => u.password,
        },
        ..u
    }
}

/// A room row after a change of name, where one is given.
pub open spec fn changed_room(r: RoomView, name: Option<Seq<char>>) -> RoomView {
    match name {
        Some(n) => RoomView { name: Some(n), ..r },
        None => r,
    }
}

/// A message row after a change of content, room and author.
pub open spec fn changed_message(
    m: MessageView,
    content: Seq<char>,
    room: Id,
    author: Id,
) -> MessageView {
    MessageView { content, room_id: room, author, ..m }
}

impl StoreView {
    /// A user with this id is stored.
    pub open spec fn has_user(self, id: Id) -> bool {
        holds_key(self.users, user_id(), id)
    }

    /// The user with this id.
    pub open spec fn user(self, id: Id) -> Option<UserView> {
        row_with(self.users, user_id(), id)
    }

    /// Some user bears this name.
    pub open spec fn username_taken(self, name: Seq<char>) -> bool {
        holds_key(self.users, user_name(), name)
    }

    /// The user of this name.
    pub open spec fn user_named(self, name: Seq<char>) -> Option<UserView> {
        row_with(self.users, user_name(), name)
    }

    /// A room with this id is stored.
    pub open spec fn has_room(self, id: Id) -> bool {
        holds_key(self.rooms, room_id(), id)
    }

    /// The room with this id.
    pub open spec fn room(self, id: Id) -> Option<RoomView> {
        row_with(self.rooms, room_id(), id)
    }

    /// A membership row links this user to this room.
    pub open spec fn is_member(self, room: Id, user: Id) -> bool {
        holds_key(self.rooms_users, membership_pair(), (room, user))
    }

    /// The membership rows of one room, in storage order.
    pub open spec fn members_of(self, room: Id) -> Seq<RoomUserView> {
        self.rooms_users.filter(in_room(room))
    }

    /// The ids of the users in one room, in storage order.
    pub open spec fn member_ids(self, room: Id) -> Seq<Id> {
        member_ids_of(self.members_of(room))
    }

    /// A message with this id is stored.
    pub open spec fn has_message(self, id: Id) -> bool {
        holds_key(self.messages, message_id(), id)
    }

    /// The message with this id.
    pub open spec fn message(self, id: Id) -> Option<MessageView> {
        row_with(self.messages, message_id(), id)
    }

    /// The messages of one room, in storage order.
    pub open spec fn messages_in(self, room: Id) -> Seq<MessageView> {
        self.messages.filter(posted_in(room))
    }

    /// Every membership row names a stored user and a stored room.
    pub open spec fn memberships_anchored(self) -> bool {
        forall|i: int|
            0 <= i < self.rooms_users.len() ==> self.has_user(
                (#[trigger] self.rooms_users[i]).user_id,
            ) && self.has_room(self.rooms_users[i].room_id)
    }

    /// The invariant of the tables: ids occur once, user names occur once,
    /// a user is in a room at most once, and every membership row names a
    /// stored user and a stored room.
    pub open spec fn consistent(self) -> bool {
        &&& distinct_by(self.users, user_id())
        &&& distinct_by(self.users, user_name())
        &&& distinct_by(self.rooms, room_id())
        &&& distinct_by(self.rooms_users, membership_pair())
        &&& distinct_by(self.messages, message_id())
        &&& self.memberships_anchored()
    }

    /// The candidates that joining admits, in order and each once: those that
    /// name a stored user who is not yet a member of the room.
    pub open spec fn admitted(self, room: Id, candidates: Seq<Id>) -> Seq<Id>
        decreases candidates.len(),
    {
        if candidates.len() == 0 {
            Seq::empty()
        } else {
            let earlier = self.admitted(room, candidates.drop_last());
            let c = candidates.last();
            if self.has_user(c) && !self.is_member(room, c) && !earlier.contains(c) {
                earlier.push(c)
            } else {
                earlier
            }
        }
    }

    /// The tables after these users joined the room at time `now`.
    pub open spec fn joined(self, room: Id, users: Seq<Id>, now: Timestamp) -> StoreView {
        StoreView {
            rooms_users: self.rooms_users + users.map_values(
                |u: Id| fresh_membership(room, u, now),
            ),
            ..self
        }
    }

    /// The tables after these users left the room.
    pub open spec fn left(self, room: Id, users: Seq<Id>) -> StoreView {
        StoreView { rooms_users: self.rooms_users.filter(staying(room, users)), ..self }
    }

    /// The tables with one more user.
    pub open spec fn with_user(self, u: UserView) -> StoreView {
        StoreView { users: self.users.push(u), ..self }
    }

    /// The tables with one more room.
    pub open spec fn with_room(self, r: RoomView) -> StoreView {
        StoreView { rooms: self.rooms.push(r), ..self }
    }

    /// The tables with one more message.
    pub open spec fn with_message(self, m: MessageView) -> StoreView {
        StoreView { messages: self.messages.push(m), ..self }
    }

    /// The tables without a user and without that user's memberships.
    pub open spec fn without_user(self, id: Id) -> StoreView {
        StoreView {
            users: self.users.filter(other_users(id)),
            rooms_users: self.rooms_users.filter(of_other_users(id)),
            ..self
        }
    }

    /// The tables without a room and without the memberships in that room.
    pub open spec fn without_room(self, id: Id) -> StoreView {
        StoreView {
            rooms: self.rooms.filter(other_rooms(id)),
            rooms_users: self.rooms_users.filter(outside_room(id)),
            ..self
        }
    }

    /// The tables without a message.
    pub open spec fn without_message(self, id: Id) -> StoreView {
        StoreView { messages: self.messages.filter(other_messages(id)), ..self }
    }

    /// The tables after the user with this id got a new name and, where one is
    /// given, a new password hash.
    pub open spec fn with_user_changed(
        self,
        id: Id,
        username: Seq<char>,
        password: Option<Seq<char>>,
    ) -> StoreView {
        StoreView {
            users: self.users.map_values(
                |u: UserView|
                    if u.id == id {
                        changed_user(u, username, password)
                    } else {
                        u
                    },
            ),
            ..self
        }
    }

    /// The tables after the room with this id got a new name, where one is given.
    pub open spec fn with_room_changed(self, id: Id, name: Option<Seq<char>>) -> StoreView {
        StoreView {
            rooms: self.rooms.map_values(
                |r: RoomView|
                    if r.id == id {
                        changed_room(r, name)
                    } else {
                        r
                    },
            ),
            ..self
        }
    }

    /// The tables after the message with this id got new content, room and author.
    pub open spec fn with_message_changed(
        self,
        id: Id,
        content: Seq<char>,
        room: Id,
        author: Id,
    ) -> StoreView {
        StoreView {
            messages: self.messages.map_values(
                |m: MessageView|
                    if m.id == id {
                        changed_message(m, content, room, author)
                    } else {
                        m
                    },
            ),
            ..self
        }
    }
}

impl Store {
    /// The tables satisfy their invariant.
    pub open spec fn wf(&self) -> bool {
        self@.consistent()
    }

    /// An empty store.
    pub fn new() -> (s: Store)
        ensures
            s.wf(),
            s@.users.len() == 0,
            s@.rooms.len() == 0,
            s@.rooms_users.len() == 0,
            s@.messages.len() == 0,
    {
        Store {
            users: Vec::new(),
            rooms: Vec::new(),
            rooms_users: Vec::new(),
            messages: Vec::new(),
        }
    }

    /// A store with these rows, if they satisfy the invariant of the tables.
    pub fn from_tables(
        users: Vec<User>,
        rooms: Vec<Room>,
        rooms_users: Vec<RoomUser>,
        messages: Vec<Message>,
    ) -> (r: Option<Store>)
        ensures
            r is Some <==> (StoreView {
                users: views(users@),
                rooms: views(rooms@),
                rooms_users: views(rooms_users@),
                messages: views(messages@),
            }).consistent(),
            r matches Some(s) ==> s.wf() && s.users == users && s.rooms == rooms && s.rooms_users
                == rooms_users && s.messages == messages,
    {
        let s = Store { users, rooms, rooms_users, messages };
        if s.is_consistent() {
            Some(s)
        } else {
            None
        }
    }

    /// Whether the tables satisfy their invariant.
    pub fn is_consistent(&self) -> (r: bool)
        ensures
            r == self.wf(),
    {
        self.users_are_distinct() && self.rooms_are_distinct() && self.memberships_are_distinct()
            && self.messages_are_distinct() && self.memberships_are_anchored()
    }

    /// Whether no two users share an id or a name.
    pub fn users_are_distinct(&self) -> (r: bool)
        ensures
            r == (distinct_by(self@.users, user_id()) && distinct_by(self@.users, user_name())),
    {
        let mut j: usize = 0;
        while j < self.users.len()
            invariant
                j <= self.users.len(),
                forall|a: int, b: int|
                    0 <= a < b < j ==> self.users[a].id != self.users[b].id
                        && self.users[a].username@ != self.users[b].username@,
            decreases self.users.len() - j,
        {
            let mut i: usize = 0;
            while i < j
                invariant
                    i <= j < self.users.len(),
                    forall|a: int|
                        0 <= a < i ==> self.users[a].id != self.users[j as int].id
                            && self.users[a].username@ != self.users[j as int].username@,
                decreases j - i,
            {
                if self.users[i].id == self.users[j].id || self.users[i].username
                    == self.users[j].username {
                    assert(user_id()(self@.users[i as int]) == user_id()(self@.users[j as int])
                        || user_name()(self@.users[i as int]) == user_name()(
                        self@.users[j as int],
                    ));
                    return false;
                }
                i += 1;
            }
            j += 1;
        }
        assert forall|a: int, b: int| 0 <= a < b < self@.users.len() implies #[trigger] user_id()(
            self@.users[a],
        ) != #[trigger] user_id()(self@.users[b]) by {
            assert(self.users[a].id != self.users[b].id);
        }
        assert forall|a: int, b: int| 0 <= a < b < self@.users.len() implies #[trigger] user_name()(
            self@.users[a],
        ) != #[trigger] user_name()(self@.users[b]) by {
            assert(self.users[a].username@ != self.users[b].username@);
        }
        true
    }

    /// Whether no two rooms share an id.
    pub fn rooms_are_distinct(&self) -> (r: bool)
        ensures
            r == distinct_by(self@.rooms, room_id()),
    {
        let mut j: usize = 0;
        while j < self.rooms.len()
            invariant
                j <= self.rooms.len(),
                forall|a: int, b: int| 0 <= a < b < j ==> self.rooms[a].id != self.rooms[b].id,
            decreases self.rooms.len() - j,
        {
            let mut i: usize = 0;
            while i < j
                invariant
                    i <= j < self.rooms.len(),
                    forall|a: int| 0 <= a < i ==> self.rooms[a].id != self.rooms[j as int].id,
                decreases j - i,
            {
                if self.rooms[i].id == self.rooms[j].id {
                    assert(room_id()(self@.rooms[i as int]) == room_id()(self@.rooms[j as int]));
                    return false;
                }
                i += 1;
            }
            j += 1;
        }
        assert forall|a: int, b: int| 0 <= a < b < self@.rooms.len() implies #[trigger] room_id()(
            self@.rooms[a],
        ) != #[trigger] room_id()(self@.rooms[b]) by {
            assert(self.rooms[a].id != self.rooms[b].id);
        }
        true
    }

    /// Whether no two messages share an id.
    pub fn messages_are_distinct(&self) -> (r: bool)
        ensures
            r == distinct_by(self@.messages, message_id()),
    {
        let mut j: usize = 0;
        while j < self.messages.len()
            invariant
                j <= self.messages.len(),
                forall|a: int, b: int|
                    0 <= a < b < j ==> self.messages[a].id != self.messages[b].id,
            decreases self.messages.len() - j,
        {
            let mut i: usize = 0;
            while i < j
                invariant
                    i <= j < self.messages.len(),
                    forall|a: int|
                        0 <= a < i ==> self.messages[a].id != self.messages[j as int].id,
                decreases j - i,
            {
                if self.messages[i].id == self.messages[j].id {
                    assert(message_id()(self@.messages[i as int]) == message_id()(
                        self@.messages[j as int],
                    ));
                    return false;
                }
                i += 1;
            }
            j += 1;
        }
        assert forall|a: int, b: int|
            0 <= a < b < self@.messages.len() implies #[trigger] message_id()(self@.messages[a])
            != #[trigger] message_id()(self@.messages[b]) by {
            assert(self.messages[a].id != self.messages[b].id);
        }
        true
    }

    /// Whether no two membership rows link the same user to the same room.
    pub fn memberships_are_distinct(&self) -> (r: bool)
        ensures
            r == distinct_by(self@.rooms_users, membership_pair()),
    {
        let mut j: usize = 0;
        while j < self.rooms_users.len()
            invariant
                j <= self.rooms_users.len(),
                forall|a: int, b: int|
                    0 <= a < b < j ==> !(self.rooms_users[a].room_id == self.rooms_users[b].room_id
                        && self.rooms_users[a].user_id == self.rooms_users[b].user_id),
            decreases self.rooms_users.len() - j,
        {
            let mut i: usize = 0;
            while i < j
                invariant
                    i <= j < self.rooms_users.len(),
                    forall|a: int|
                        0 <= a < i ==> !(self.rooms_users[a].room_id
                            == self.rooms_users[j as int].room_id && self.rooms_users[a].user_id
                            == self.rooms_users[j as int].user_id),
                decreases j - i,
            {
                if self.rooms_users[i].room_id == self.rooms_users[j].room_id
                    && self.rooms_users[i].user_id == self.rooms_users[j].user_id {
                    assert(membership_pair()(self@.rooms_users[i as int]) == membership_pair()(
                        self@.rooms_users[j as int],
                    ));
                    return false;
                }
                i += 1;
            }
            j += 1;
        }
        assert forall|a: int, b: int|
            0 <= a < b < self@.rooms_users.len() implies #[trigger] membership_pair()(
            self@.rooms_users[a],
        ) != #[trigger] membership_pair()(self@.rooms_users[b]) by {
            assert(!(self.rooms_users[a].room_id == self.rooms_users[b].room_id
                && self.rooms_users[a].user_id == self.rooms_users[b].user_id));
        }
        true
    }

    /// Whether every membership row names a stored user and a stored room.
    pub fn memberships_are_anchored(&self) -> (r: bool)
        ensures
            r == self@.memberships_anchored(),
    {
        let mut i: usize = 0;
        while i < self.rooms_users.len()
            invariant
                i <= self.rooms_users.len(),
                forall|a: int|
                    0 <= a < i ==> self@.has_user((#[trigger] self@.rooms_users[a]).user_id)
                        && self@.has_room(self@.rooms_users[a].room_id),
            decreases self.rooms_users.len() - i,
        {
            if self.user_index(self.rooms_users[i].user_id).is_none() || self.room_index(
                self.rooms_users[i].room_id,
            ).is_none() {
                assert(!(self@.has_user(self@.rooms_users[i as int].user_id) && self@.has_room(
                    self@.rooms_users[i as int].room_id,
                )));
                return false;
            }
            i += 1;
        }
        true
    }

    /// Where the user with this id stands in its table.
    pub fn user_index(&self, id: Id) -> (r: Option<usize>)
        ensures
            r is Some <==> self@.has_user(id),
            r matches Some(i) ==> i < self.users.len() && self.users[i as int].id == id,
    {
        let mut i: usize = 0;
        while i < self.users.len()
            invariant
                i <= self.users.len(),
                forall|j: int| 0 <= j < i ==> self.users[j].id != id,
            decreases self.users.len() - i,
        {
            if self.users[i].id == id {
                assert(user_id()(self@.users[i as int]) == id);
                return Some(i);
            }
            i += 1;
        }
        assert forall|j: int| 0 <= j < self@.users.len() implies #[trigger] user_id()(
            self@.users[j],
        ) != id by {
            assert(self@.users[j] == self.users[j]@);
        }
        None
    }

    /// Where the user of this name stands in its table.
    pub fn username_index(&self, name: &String) -> (r: Option<usize>)
        ensures
            r is Some <==> self@.username_taken(name@),
            r matches Some(i) ==> i < self.users.len() && self.users[i as int].username@ == name@,
    {
        let mut i: usize = 0;
        while i < self.users.len()
            invariant
                i <= self.users.len(),
                forall|j: int| 0 <= j < i ==> self.users[j].username@ != name@,
            decreases self.users.len() - i,
        {
            if self.users[i].username == *name {
                assert(user_name()(self@.users[i as int]) == name@);
                return Some(i);
            }
            i += 1;
        }
        assert forall|j: int| 0 <= j < self@.users.len() implies #[trigger] user_name()(
            self@.users[j],
        ) != name@ by {
            assert(self@.users[j] == self.users[j]@);
        }
        None
    }

    /// Where the room with this id stands in its table.
    pub fn room_index(&self, id: Id) -> (r: Option<usize>)
        ensures
            r is Some <==> self@.has_room(id),
            r matches Some(i) ==> i < self.rooms.len() && self.rooms[i as int].id == id,
    {
        let mut i: usize = 0;
        while i < self.rooms.len()
            invariant
                i <= self.rooms.len(),
                forall|j: int| 0 <= j < i ==> self.rooms[j].id != id,
            decreases self.rooms.len() - i,
        {
            if self.rooms[i].id == id {
                assert(room_id()(self@.rooms[i as int]) == id);
                return Some(i);
            }
            i += 1;
        }
        assert forall|j: int| 0 <= j < self@.rooms.len() implies #[trigger] room_id()(
            self@.rooms[j],
        ) != id by {
            assert(self@.rooms[j] == self.rooms[j]@);
        }
        None
    }

    /// Where the message with this id stands in its table.
    pub fn message_index(&self, id: Id) -> (r: Option<usize>)
        ensures
            r is Some <==> self@.has_message(id),
            r matches Some(i) ==> i < self.messages.len() && self.messages[i as int].id == id,
    {
        let mut i: usize = 0;
        while i < self.messages.len()
            invariant
                i <= self.messages.len(),
                forall|j: int| 0 <= j < i ==> self.messages[j].id != id,
            decreases self.messages.len() - i,
        {
            if self.messages[i].id == id {
                assert(message_id()(self@.messages[i as int]) == id);
                return Some(i);
            }
            i += 1;
        }
        assert forall|j: int| 0 <= j < self@.messages.len() implies #[trigger] message_id()(
            self@.messages[j],
        ) != id by {
            assert(self@.messages[j] == self.messages[j]@);
        }
        None
    }

    /// Whether a membership row links this user to this room.
    pub fn is_member(&self, room: Id, user: Id) -> (r: bool)
        ensures
            r == self@.is_member(room, user),
    {
        let mut i: usize = 0;
        while i < self.rooms_users.len()
            invariant
                i <= self.rooms_users.len(),
                forall|j: int|
                    0 <= j < i ==> !(self.rooms_users[j].room_id == room
                        && self.rooms_users[j].user_id == user),
            decreases self.rooms_users.len() - i,
        {
            if self.rooms_users[i].room_id == room && self.rooms_users[i].user_id == user {
                assert(membership_pair()(self@.rooms_users[i as int]) == (room, user));
                return true;
            }
            i += 1;
        }
        assert forall|j: int| 0 <= j < self@.rooms_users.len() implies #[trigger] membership_pair()(
            self@.rooms_users[j],
        ) != (room, user) by {
            assert(self@.rooms_users[j] == self.rooms_users[j]@);
        }
        false
    }
}

/// Membership after a join: what held before, and the users that joined.
pub proof fn lemma_joined_membership(
    before: StoreView,
    room: Id,
    joining: Seq<Id>,
    now: Timestamp,
    other_room: Id,
    user: Id,
)
    ensures
        before.joined(room, joining, now).is_member(other_room, user) <==> (before.is_member(
            other_room,
            user,
        ) || (other_room == room && joining.contains(user))),
{
    let after = before.joined(room, joining, now);
    let rows = joining.map_values(|u: Id| fresh_membership(room, u, now));
    let n = before.rooms_users.len() as int;
    let k = (other_room, user);
    if after.is_member(other_room, user) {
        let i = choose|i: int|
            0 <= i < after.rooms_users.len() && #[trigger] membership_pair()(after.rooms_users[i])
                == k;
        if i < n {
            assert(before.rooms_users[i] == after.rooms_users[i]);
            assert(membership_pair()(before.rooms_users[i]) == k);
        } else {
            assert(after.rooms_users[i] == rows[i - n]);
            assert(joining[i - n] == user);
        }
    }
    if before.is_member(other_room, user) {
        let i = choose|i: int|
            0 <= i < before.rooms_users.len() && #[trigger] membership_pair()(
                before.rooms_users[i],
            ) == k;
        assert(after.rooms_users[i] == before.rooms_users[i]);
        assert(membership_pair()(after.rooms_users[i]) == k);
    }
    if other_room == room && joining.contains(user) {
        let j = choose|j: int| 0 <= j < joining.len() && joining[j] == user;
        assert(after.rooms_users[n + j] == rows[j]);
        assert(membership_pair()(after.rooms_users[n + j]) == k);
    }
}

/// Appending a membership row for a stored user and a stored room, not yet
/// linked, keeps the tables consistent.
pub proof fn lemma_push_membership_consistent(before: StoreView, row: RoomUserView)
    requires
        before.consistent(),
        before.has_user(row.user_id),
        before.has_room(row.room_id),
        !before.is_member(row.room_id, row.user_id),
    ensures
        (StoreView { rooms_users: before.rooms_users.push(row), ..before }).consistent(),
{
    let after = StoreView { rooms_users: before.rooms_users.push(row), ..before };
    lemma_distinct_push(before.rooms_users, membership_pair(), row);
    assert forall|i: int| 0 <= i < after.rooms_users.len() implies after.has_user(
        (#[trigger] after.rooms_users[i]).user_id,
    ) && after.has_room(after.rooms_users[i].room_id) by {
        if i < before.rooms_users.len() {
            assert(after.rooms_users[i] == before.rooms_users[i]);
        } else {
            assert(after.rooms_users[i] == row);
        }
    }
}

/// Dropping membership rows keeps the tables consistent.
pub proof fn lemma_filter_memberships_consistent(
    before: StoreView,
    pred: spec_fn(RoomUserView) -> bool,
)
    requires
        before.consistent(),
    ensures
        (StoreView { rooms_users: before.rooms_users.filter(pred), ..before }).consistent(),
{
    let after = StoreView { rooms_users: before.rooms_users.filter(pred), ..before };
    lemma_distinct_filter(before.rooms_users, membership_pair(), pred);
    lemma_filter_members(before.rooms_users, pred);
    assert forall|i: int| 0 <= i < after.rooms_users.len() implies after.has_user(
        (#[trigger] after.rooms_users[i]).user_id,
    ) && after.has_room(after.rooms_users[i].room_id) by {
        assert(before.rooms_users.contains(after.rooms_users[i]));
        let j = choose|j: int|
            0 <= j < before.rooms_users.len() && before.rooms_users[j] == after.rooms_users[i];
        assert(before.has_user(before.rooms_users[j].user_id));
    }
}

/// A user under a new id and a new name keeps the tables consistent.
pub proof fn lemma_with_user_consistent(before: StoreView, u: UserView)
    requires
        before.consistent(),
        !before.has_user(u.id),
        !before.username_taken(u.username),
    ensures
        before.with_user(u).consistent(),
{
    let after = before.with_user(u);
    lemma_distinct_push(before.users, user_id(), u);
    lemma_distinct_push(before.users, user_name(), u);
    assert forall|i: int| 0 <= i < after.rooms_users.len() implies after.has_user(
        (#[trigger] after.rooms_users[i]).user_id,
    ) && after.has_room(after.rooms_users[i].room_id) by {
        assert(before.has_user(before.rooms_users[i].user_id));
        lemma_holds_key_push(before.users, user_id(), u, before.rooms_users[i].user_id);
    }
}

/// A room under a new id keeps the tables consistent.
pub proof fn lemma_with_room_consistent(before: StoreView, r: RoomView)
    requires
        before.consistent(),
        !before.has_room(r.id),
    ensures
        before.with_room(r).consistent(),
{
    let after = before.with_room(r);
    lemma_distinct_push(before.rooms, room_id(), r);
    assert forall|i: int| 0 <= i < after.rooms_users.len() implies after.has_user(
        (#[trigger] after.rooms_users[i]).user_id,
    ) && after.has_room(after.rooms_users[i].room_id) by {
        assert(before.has_room(before.rooms_users[i].room_id));
        lemma_holds_key_push(before.rooms, room_id(), r, before.rooms_users[i].room_id);
    }
}

/// A message under a new id keeps the tables consistent.
pub proof fn lemma_with_message_consistent(before: StoreView, m: MessageView)
    requires
        before.consistent(),
        !before.has_message(m.id),
    ensures
        before.with_message(m).consistent(),
{
    lemma_distinct_push(before.messages, message_id(), m);
}

/// Removing a user together with that user's memberships keeps the tables
/// consistent.
pub proof fn lemma_without_user_consistent(before: StoreView, id: Id)
    requires
        before.consistent(),
    ensures
        before.without_user(id).consistent(),
{
    let after = before.without_user(id);
    lemma_distinct_filter(before.users, user_id(), other_users(id));
    lemma_distinct_filter(before.users, user_name(), other_users(id));
    lemma_distinct_filter(before.rooms_users, membership_pair(), of_other_users(id));
    lemma_filter_members(before.rooms_users, of_other_users(id));
    assert forall|i: int| 0 <= i < after.rooms_users.len() implies after.has_user(
        (#[trigger] after.rooms_users[i]).user_id,
    ) && after.has_room(after.rooms_users[i].room_id) by {
        let m = after.rooms_users[i];
        assert(before.rooms_users.contains(m));
        let j = choose|j: int| 0 <= j < before.rooms_users.len() && before.rooms_users[j] == m;
        assert(before.has_user(before.rooms_users[j].user_id));
        let k = choose|k: int|
            0 <= k < before.users.len() && #[trigger] user_id()(before.users[k]) == m.user_id;
        assert(other_users(id)(before.users[k]));
        lemma_holds_key_filter(before.users, user_id(), other_users(id), m.user_id);
    }
}

/// Removing a room together with the memberships in it keeps the tables
/// consistent.
pub proof fn lemma_without_room_consistent(before: StoreView, id: Id)
    requires
        before.consistent(),
    ensures
        before.without_room(id).consistent(),
{
    let after = before.without_room(id);
    lemma_distinct_filter(before.rooms, room_id(), other_rooms(id));
    lemma_distinct_filter(before.rooms_users, membership_pair(), outside_room(id));
    lemma_filter_members(before.rooms_users, outside_room(id));
    assert forall|i: int| 0 <= i < after.rooms_users.len() implies after.has_user(
        (#[trigger] after.rooms_users[i]).user_id,
    ) && after.has_room(after.rooms_users[i].room_id) by {
        let m = after.rooms_users[i];
        assert(before.rooms_users.contains(m));
        let j = choose|j: int| 0 <= j < before.rooms_users.len() && before.rooms_users[j] == m;
        assert(before.has_room(before.rooms_users[j].room_id));
        let k = choose|k: int|
            0 <= k < before.rooms.len() && #[trigger] room_id()(before.rooms[k]) == m.room_id;
        assert(other_rooms(id)(before.rooms[k]));
        lemma_holds_key_filter(before.rooms, room_id(), other_rooms(id), m.room_id);
    }
}

/// Removing a message keeps the tables consistent.
pub proof fn lemma_without_message_consistent(before: StoreView, id: Id)
    requires
        before.consistent(),
    ensures
        before.without_message(id).consistent(),
{
    lemma_distinct_filter(before.messages, message_id(), other_messages(id));
}

/// One step of filtering a prefix: the next row is kept or dropped.
pub proof fn lemma_filter_step<A>(rows: Seq<A>, pred: spec_fn(A) -> bool, i: int)
    requires
        0 <= i < rows.len(),
    ensures
        rows.take(i + 1).filter(pred) == if pred(rows[i]) {
            rows.take(i).filter(pred).push(rows[i])
        } else {
            rows.take(i).filter(pred)
        },
{
    reveal(Seq::filter);
    assert(rows.take(i + 1).drop_last() =~= rows.take(i));
    assert(rows.take(i + 1).last() == rows[i]);
}

} // verus!
