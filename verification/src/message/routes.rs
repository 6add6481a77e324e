//! What the message endpoints answer, from the tables and the request's
//! values.

use crate::errors::ServiceError;
use crate::message::model::{Message, MessageData};
use crate::store::{Id, Store};
use vstd::prelude::*;

verus! {

/// `GET /messages/{id}`: one message, or `NotFound`.
pub fn find(conn: &Store, id: Id) -> (r: Result<Message, ServiceError>)
    requires
        conn.wf(),
    ensures
        match conn@.message(id) {
            None => r is Err && r->Err_0 == ServiceError::NotFound,
            Some(m) => r is Ok && r->Ok_0@ == m,
        },
{
    match Message::find(id, conn) {
        Ok(message) => ServiceError::found(message),
        Err(e) => Err(ServiceError::from(e)),
    }
}

/// `POST /messages`: stores a message and shows it. A room or an author that
/// is not stored is answered with `InternalServerError`.
pub fn create(conn: &mut Store, message_data: MessageData) -> (r: Result<Message, ServiceError>)
    requires
        old(conn).wf(),
    ensures
        final(conn).wf(),
        !old(conn)@.has_room(message_data.room_id) || !old(conn)@.has_user(message_data.author)
            ==> r is Err,
        r matches Err(e) ==> e == ServiceError::InternalServerError && final(conn)@ == old(conn)@,
        r matches Ok(m) ==> {
            &&& m.content@ == message_data.content@
            &&& m.room_id == message_data.room_id
            &&& m.author == message_data.author
            &&& !old(conn)@.has_message(m.id)
            &&& final(conn)@ == old(conn)@.with_message(m@)
        },
{
    match Message::create(message_data, conn) {
        Ok(message) => Ok(message),
        Err(e) => Err(ServiceError::from(e)),
    }
}

} // verus!
