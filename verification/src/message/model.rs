//! The message table's row type and the operations on it.

use crate::rows::{
    lemma_distinct_update, lemma_filter_is_remove, lemma_filter_keeps_all, lemma_row_with_at,
    view_of, views,
};
use crate::store::{
    changed_message, lemma_filter_step, lemma_with_message_consistent,
    lemma_without_message_consistent, message_id, other_messages, posted_in, Id, Store,
    StoreView, Timestamp,
};
use crate::trusted::{current_time, random_id};
use vstd::prelude::*;

verus! {

/// A stored message.
#[derive(Debug, PartialEq)]
pub struct Message {
    pub id: Id,
    pub room_id: Id,
    pub author: Id,
    pub content: String,
    pub created: Timestamp,
    pub updated: Timestamp,
}

/// What a [`Message`] is in contracts.
pub ghost struct MessageView {
    pub id: Id,
    pub room_id: Id,
    pub author: Id,
    pub content: Seq<char>,
    pub created: Timestamp,
    pub updated: Timestamp,
}

impl View for Message {
    type V = MessageView;

    open spec fn view(&self) -> MessageView {
        MessageView {
            id: self.id,
            room_id: self.room_id,
            author: self.author,
            content: self.content@,
            created: self.created,
            updated: self.updated,
        }
    }
}

impl Clone for Message {
    fn clone(&self) -> (r: Self)
        ensures
            r == *self,
    {
        Message {
            id: self.id,
            room_id: self.room_id,
            author: self.author,
            content: self.content.clone(),
            created: self.created,
            updated: self.updated,
        }
    }
}

/// The fields a client supplies to post or change a message.
#[derive(Debug)]
pub struct MessageData {
    pub content: String,
    pub room_id: Id,
    pub author: Id,
}

impl Clone for MessageData {
    fn clone(&self) -> (r: Self)
        ensures
            r == *self,
    {
        MessageData { content: self.content.clone(), room_id: self.room_id, author: self.author }
    }
}

/// Why an operation on messages failed.
#[derive(Debug, Clone, Copy, PartialEq, Eq, Structural)]
pub enum MessageError {
    MessageNotFound,
    DatabaseError,
    GenericError,
}

impl Message {
    /// The message with this id, if it is stored.
    pub fn find(message_id: Id, conn: &Store) -> (r: Result<Option<Message>, MessageError>)
        requires
            conn.wf(),
        ensures
            r is Ok,
            view_of(r->Ok_0) == conn@.message(message_id),
    {
        match conn.message_index(message_id) {
            Some(i) => {
                proof {
                    lemma_row_with_at(conn@.messages, crate::store::message_id(), i as int);
                }
                Ok(Some(conn.messages[i].clone()))
            },
            None => Ok(None),
        }
    }

    /// The messages of a room, in storage order.
    pub fn find_all_by_room(room: Id, conn: &Store) -> (r: Result<Vec<Message>, MessageError>)
        ensures
            r is Ok,
            views(r->Ok_0@) == conn@.messages_in(room),
    {
        let mut found: Vec<Message> = Vec::new();
        let mut i: usize = 0;
        assert(conn@.messages.take(0).filter(posted_in(room)) =~= Seq::empty()) by {
            reveal(Seq::filter);
        }
        while i < conn.messages.len()
            invariant
                i <= conn.messages.len(),
                views(found@) =~= conn@.messages.take(i as int).filter(posted_in(room)),
            decreases conn.messages.len() - i,
        {
            proof {
                lemma_filter_step(conn@.messages, posted_in(room), i as int);
            }
            if conn.messages[i].room_id == room {
                found.push(conn.messages[i].clone());
            }
            i += 1;
        }
        assert(conn@.messages.take(i as int) =~= conn@.messages);
        Ok(found)
    }

    /// Stores a new message under a fresh id, with the time of the call as
    /// its time of creation.
    ///
    /// Fails with `DatabaseError` if its room or its author is not stored.
    /// Past that it fails, in the same way, only where the id turns out to be
    /// in use. A failure changes nothing.
    pub fn create(message_data: MessageData, conn: &mut Store) -> (r: Result<
        Message,
        MessageError,
    >)
        requires
            old(conn).wf(),
        ensures
            final(conn).wf(),
            !old(conn)@.has_room(message_data.room_id) || !old(conn)@.has_user(
                message_data.author,
            ) ==> r is Err,
            r matches Err(e) ==> e == MessageError::DatabaseError && final(conn)@ == old(conn)@,
            r matches Ok(m) ==> {
                &&& m.content@ == message_data.content@
                &&& m.room_id == message_data.room_id
                &&& m.author == message_data.author
                &&& m.created == m.updated
                &&& !old(conn)@.has_message(m.id)
                &&& final(conn)@ == old(conn)@.with_message(m@)
            },
    {
        let now = current_time();
        let id = random_id();
        Message::insert_row(
            conn,
            Message {
                id,
                room_id: message_data.room_id,
                author: message_data.author,
                content: message_data.content,
                created: now,
                updated: now,
            },
        )
    }

    /// The row can be stored: its room and its author are stored and its id
    /// is free.
    pub open spec fn admissible(s: StoreView, m: MessageView) -> bool {
        s.has_room(m.room_id) && s.has_user(m.author) && !s.has_message(m.id)
    }

    /// Stores a message row. Fails with `DatabaseError`, changing nothing, if
    /// its room or its author is not stored or a message with its id is.
    pub fn insert_row(conn: &mut Store, message: Message) -> (r: Result<Message, MessageError>)
        requires
            old(conn).wf(),
        ensures
            final(conn).wf(),
            !Message::admissible(old(conn)@, message@) ==> r == Err::<Message, MessageError>(
                MessageError::DatabaseError,
            ) && final(conn)@ == old(conn)@,
            Message::admissible(old(conn)@, message@) ==> r == Ok::<Message, MessageError>(message)
                && final(conn)@ == old(conn)@.with_message(message@),
    {
        if conn.room_index(message.room_id).is_none() || conn.user_index(message.author).is_none()
            || conn.message_index(message.id).is_some() {
            return Err(MessageError::DatabaseError);
        }
        let ghost before = conn@;
        let stored = message.clone();
        conn.messages.push(message);
        proof {
            assert(conn@.messages =~= before.messages.push(stored@));
            assert(conn@ =~= before.with_message(stored@));
            lemma_with_message_consistent(before, stored@);
        }
        Ok(stored)
    }

    /// Replaces the content, room and author of a message.
    ///
    /// Fails with `MessageNotFound` if no message has this id, else with
    /// `DatabaseError` if the new room or the new author is not stored;
    /// either failure changes nothing.
    pub fn update(message_id: Id, message_data: MessageData, conn: &mut Store) -> (r: Result<
        Message,
        MessageError,
    >)
        requires
            old(conn).wf(),
        ensures
            final(conn).wf(),
            !old(conn)@.has_message(message_id) ==> r == Err::<Message, MessageError>(
                MessageError::MessageNotFound,
            ) && final(conn)@ == old(conn)@,
            old(conn)@.has_message(message_id) && !(old(conn)@.has_room(message_data.room_id)
                && old(conn)@.has_user(message_data.author)) ==> r == Err::<Message, MessageError>(
                MessageError::DatabaseError,
            ) && final(conn)@ == old(conn)@,
            old(conn)@.has_message(message_id) && old(conn)@.has_room(message_data.room_id)
                && old(conn)@.has_user(message_data.author) ==> r is Ok && r->Ok_0@
                == changed_message(
                old(conn)@.message(message_id)->Some_0,
                message_data.content@,
                message_data.room_id,
                message_data.author,
            ) && final(conn)@ == old(conn)@.with_message_changed(
                message_id,
                message_data.content@,
                message_data.room_id,
                message_data.author,
            ),
    {
        let ghost before = conn@;
        match conn.message_index(message_id) {
            None => Err(MessageError::MessageNotFound),
            Some(at) => {
                if conn.room_index(message_data.room_id).is_none() || conn.user_index(
                    message_data.author,
                ).is_none() {
                    return Err(MessageError::DatabaseError);
                }
                let changed = Message {
                    id: message_id,
                    room_id: message_data.room_id,
                    author: message_data.author,
                    content: message_data.content,
                    created: conn.messages[at].created,
                    updated: conn.messages[at].updated,
                };
                let shown = changed.clone();
                conn.messages.set(at, changed);
                proof {
                    lemma_row_with_at(before.messages, crate::store::message_id(), at as int);
                    lemma_message_changed(
                        before,
                        message_id,
                        message_data.content@,
                        message_data.room_id,
                        message_data.author,
                        at as int,
                    );
                    assert(conn@.messages =~= before.messages.update(at as int, shown@));
                    assert(conn@ =~= before.with_message_changed(
                        message_id,
                        message_data.content@,
                        message_data.room_id,
                        message_data.author,
                    ));
                }
                Ok(shown)
            },
        }
    }

    /// Deletes a message. Returns how many messages were deleted: one, or
    /// none if no message has this id.
    pub fn destroy(message_id: Id, conn: &mut Store) -> (r: Result<usize, MessageError>)
        requires
            old(conn).wf(),
        ensures
            final(conn).wf(),
            final(conn)@ == old(conn)@.without_message(message_id),
            r == Ok::<usize, MessageError>(
                if old(conn)@.has_message(message_id) {
                    1usize
                } else {
                    0usize
                },
            ),
            !old(conn)@.has_message(message_id) ==> final(conn)@ == old(conn)@,
    {
        let ghost before = conn@;
        match conn.message_index(message_id) {
            None => {
                proof {
                    lemma_without_absent_message(before, message_id);
                }
                Ok(0)
            },
            Some(at) => {
                conn.messages.remove(at);
                proof {
                    lemma_filter_is_remove(
                        before.messages,
                        crate::store::message_id(),
                        other_messages(message_id),
                        at as int,
                    );
                    assert(conn@.messages =~= before.messages.remove(at as int));
                    assert(conn@ =~= before.without_message(message_id));
                    lemma_without_message_consistent(before, message_id);
                }
                Ok(1)
            },
        }
    }
}

/// Removing a message that is not stored changes nothing.
pub proof fn lemma_without_absent_message(before: StoreView, id: Id)
    requires
        !before.has_message(id),
    ensures
        before.without_message(id) == before,
{
    assert forall|i: int| 0 <= i < before.messages.len() implies other_messages(id)(
        #[trigger] before.messages[i],
    ) by {
        assert(crate::store::message_id()(before.messages[i]) != id);
    }
    lemma_filter_keeps_all(before.messages, other_messages(id));
    assert(before.without_message(id) =~= before);
}

/// Changing the message at `at` is replacing that row, and keeps the tables
/// consistent.
pub proof fn lemma_message_changed(
    before: StoreView,
    id: Id,
    content: Seq<char>,
    room: Id,
    author: Id,
    at: int,
)
    requires
        before.consistent(),
        0 <= at < before.messages.len(),
        before.messages[at].id == id,
    ensures
        before.with_message_changed(id, content, room, author).messages == before.messages.update(
            at,
            changed_message(before.messages[at], content, room, author),
        ),
        before.with_message_changed(id, content, room, author).consistent(),
{
    let after = before.with_message_changed(id, content, room, author);
    let row = changed_message(before.messages[at], content, room, author);
    assert forall|j: int| 0 <= j < before.messages.len() implies after.messages[j]
        == before.messages.update(at, row)[j] by {
        if j < at {
            assert(crate::store::message_id()(before.messages[j]) != crate::store::message_id()(
                before.messages[at],
            ));
        } else if at < j {
            assert(crate::store::message_id()(before.messages[at]) != crate::store::message_id()(
                before.messages[j],
            ));
        }
    }
    assert(after.messages =~= before.messages.update(at, row));
    lemma_distinct_update(before.messages, crate::store::message_id(), at, row);
    assert forall|i: int| 0 <= i < after.rooms_users.len() implies after.has_user(
        (#[trigger] after.rooms_users[i]).user_id,
    ) && after.has_room(after.rooms_users[i].room_id) by {
        assert(before.has_user(before.rooms_users[i].user_id));
    }
}

} // verus!
