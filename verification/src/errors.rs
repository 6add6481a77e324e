//! The errors that reach a client, and how the errors of the tables and of
//! authentication map to them.

use crate::message::MessageError;
use crate::room::RoomError;
use crate::user::auth::AuthenticationError;
use crate::user::UserError;
use vstd::prelude::*;
use vstd::std_specs::convert::FromSpecImpl;

verus! {

/// What went wrong, as a client is told.
#[derive(Debug, Clone, Copy, PartialEq, Eq, Structural)]
pub enum ServiceError {
    InternalServerError,
    NotFound,
    NoContent,
    Forbidden,
}

/// How a storage backend failed: a constraint or the engine itself refused
/// the statement, a row that had to be there was not, or anything else.
#[derive(Debug, Clone, Copy, PartialEq, Eq, Structural)]
pub enum StorageFault {
    Database,
    NotFound,
    Other,
}

/// The outcome of work handed to a background task: the work's own error, or
/// the task was canceled before it ended.
#[derive(Debug)]
pub enum Blocking<E> {
    Error(E),
    Canceled,
}

/// The body of an error response.
#[derive(Debug)]
pub enum ErrorBody {
    /// A bare text.
    Text(String),
    /// An object with the one field `msg`.
    Message(String),
}

/// An error response: the HTTP status and the body.
#[derive(Debug)]
pub struct ErrorResponse {
    pub status: u16,
    pub body: ErrorBody,
}

impl From<StorageFault> for RoomError {
    fn from(error: StorageFault) -> (r: RoomError) {
        match error {
            StorageFault::Database => RoomError::DatabaseError,
            StorageFault::NotFound => RoomError::RoomNotFound,
            StorageFault::Other => RoomError::GenericError,
        }
    }
}

impl FromSpecImpl<StorageFault> for RoomError {
    open spec fn obeys_from_spec() -> bool {
        true
    }

    open spec fn from_spec(error: StorageFault) -> RoomError {
        match error {
            StorageFault::Database => RoomError::DatabaseError,
            StorageFault::NotFound => RoomError::RoomNotFound,
            StorageFault::Other => RoomError::GenericError,
        }
    }
}

impl From<StorageFault> for UserError {
    fn from(error: StorageFault) -> (r: UserError) {
        match error {
            StorageFault::Database => UserError::DatabaseError,
            StorageFault::NotFound => UserError::UserNotFound,
            StorageFault::Other => UserError::GenericError,
        }
    }
}

impl FromSpecImpl<StorageFault> for UserError {
    open spec fn obeys_from_spec() -> bool {
        true
    }

    open spec fn from_spec(error: StorageFault) -> UserError {
        match error {
            StorageFault::Database => UserError::DatabaseError,
            StorageFault::NotFound => UserError::UserNotFound,
            StorageFault::Other => UserError::GenericError,
        }
    }
}

impl From<StorageFault> for MessageError {
    fn from(error: StorageFault) -> (r: MessageError) {
        match error {
            StorageFault::Database => MessageError::DatabaseError,
            StorageFault::NotFound => MessageError::MessageNotFound,
            StorageFault::Other => MessageError::GenericError,
        }
    }
}

impl FromSpecImpl<StorageFault> for MessageError {
    open spec fn obeys_from_spec() -> bool {
        true
    }

    open spec fn from_spec(error: StorageFault) -> MessageError {
        match error {
            StorageFault::Database => MessageError::DatabaseError,
            StorageFault::NotFound => MessageError::MessageNotFound,
            StorageFault::Other => MessageError::GenericError,
        }
    }
}

impl From<UserError> for ServiceError {
    fn from(error: UserError) -> (r: ServiceError) {
        match error {
            UserError::UserNotFound => ServiceError::NotFound,
            UserError::UsernameTaken => ServiceError::Forbidden,
            UserError::DatabaseError => ServiceError::InternalServerError,
            UserError::GenericError => ServiceError::InternalServerError,
        }
    }
}

impl FromSpecImpl<UserError> for ServiceError {
    open spec fn obeys_from_spec() -> bool {
        true
    }

    open spec fn from_spec(error: UserError) -> ServiceError {
        match error {
            UserError::UserNotFound => ServiceError::NotFound,
            UserError::UsernameTaken => ServiceError::Forbidden,
            UserError::DatabaseError => ServiceError::InternalServerError,
            UserError::GenericError => ServiceError::InternalServerError,
        }
    }
}

impl From<RoomError> for ServiceError {
    fn from(error: RoomError) -> (r: ServiceError) {
        match error {
            RoomError::GenericError => ServiceError::InternalServerError,
            RoomError::DatabaseError => ServiceError::InternalServerError,
            RoomError::RoomNotFound => ServiceError::NotFound,
        }
    }
}

impl FromSpecImpl<RoomError> for ServiceError {
    open spec fn obeys_from_spec() -> bool {
        true
    }

    open spec fn from_spec(error: RoomError) -> ServiceError {
        match error {
            RoomError::GenericError => ServiceError::InternalServerError,
            RoomError::DatabaseError => ServiceError::InternalServerError,
            RoomError::RoomNotFound => ServiceError::NotFound,
        }
    }
}

impl From<MessageError> for ServiceError {
    fn from(error: MessageError) -> (r: ServiceError) {
        match error {
            MessageError::MessageNotFound => ServiceError::NotFound,
            MessageError::DatabaseError => ServiceError::InternalServerError,
            MessageError::GenericError => ServiceError::InternalServerError,
        }
    }
}

impl FromSpecImpl<MessageError> for ServiceError {
    open spec fn obeys_from_spec() -> bool {
        true
    }

    open spec fn from_spec(error: MessageError) -> ServiceError {
        match error {
            MessageError::MessageNotFound => ServiceError::NotFound,
            MessageError::DatabaseError => ServiceError::InternalServerError,
            MessageError::GenericError => ServiceError::InternalServerError,
        }
    }
}

impl From<AuthenticationError> for ServiceError {
    fn from(error: AuthenticationError) -> (r: ServiceError) {
        match error {
            AuthenticationError::IncorrectPassword => ServiceError::Forbidden,
            AuthenticationError::UserNotFound => ServiceError::NotFound,
            AuthenticationError::BcryptError(_) => ServiceError::InternalServerError,
            AuthenticationError::DatabaseError(_) => ServiceError::InternalServerError,
        }
    }
}

impl FromSpecImpl<AuthenticationError> for ServiceError {
    open spec fn obeys_from_spec() -> bool {
        true
    }

    open spec fn from_spec(error: AuthenticationError) -> ServiceError {
        match error {
            AuthenticationError::IncorrectPassword => ServiceError::Forbidden,
            AuthenticationError::UserNotFound => ServiceError::NotFound,
            AuthenticationError::BcryptError(_) => ServiceError::InternalServerError,
            AuthenticationError::DatabaseError(_) => ServiceError::InternalServerError,
        }
    }
}

impl From<Blocking<UserError>> for ServiceError {
    fn from(error: Blocking<UserError>) -> (r: ServiceError) {
        match error {
            Blocking::Error(e) => ServiceError::from(e),
            Blocking::Canceled => ServiceError::InternalServerError,
        }
    }
}

impl FromSpecImpl<Blocking<UserError>> for ServiceError {
    open spec fn obeys_from_spec() -> bool {
        true
    }

    open spec fn from_spec(error: Blocking<UserError>) -> ServiceError {
        match error {
            Blocking::Error(e) => <ServiceError as vstd::std_specs::convert::FromSpec<
                UserError,
            >>::from_spec(e),
            Blocking::Canceled => ServiceError::InternalServerError,
        }
    }
}

impl From<Blocking<RoomError>> for ServiceError {
    fn from(error: Blocking<RoomError>) -> (r: ServiceError) {
        match error {
            Blocking::Error(e) => ServiceError::from(e),
            Blocking::Canceled => ServiceError::InternalServerError,
        }
    }
}

impl FromSpecImpl<Blocking<RoomError>> for ServiceError {
    open spec fn obeys_from_spec() -> bool {
        true
    }

    open spec fn from_spec(error: Blocking<RoomError>) -> ServiceError {
        match error {
            Blocking::Error(e) => <ServiceError as vstd::std_specs::convert::FromSpec<
                RoomError,
            >>::from_spec(e),
            Blocking::Canceled => ServiceError::InternalServerError,
        }
    }
}

impl From<Blocking<MessageError>> for ServiceError {
    fn from(error: Blocking<MessageError>) -> (r: ServiceError) {
        match error {
            Blocking::Error(e) => ServiceError::from(e),
            Blocking::Canceled => ServiceError::InternalServerError,
        }
    }
}

impl FromSpecImpl<Blocking<MessageError>> for ServiceError {
    open spec fn obeys_from_spec() -> bool {
        true
    }

    open spec fn from_spec(error: Blocking<MessageError>) -> ServiceError {
        match error {
            Blocking::Error(e) => <ServiceError as vstd::std_specs::convert::FromSpec<
                MessageError,
            >>::from_spec(e),
            Blocking::Canceled => ServiceError::InternalServerError,
        }
    }
}

impl From<Blocking<AuthenticationError>> for ServiceError {
    fn from(error: Blocking<AuthenticationError>) -> (r: ServiceError) {
        match error {
            Blocking::Error(e) => ServiceError::from(e),
            Blocking::Canceled => ServiceError::InternalServerError,
        }
    }
}

impl FromSpecImpl<Blocking<AuthenticationError>> for ServiceError {
    open spec fn obeys_from_spec() -> bool {
        true
    }

    open spec fn from_spec(error: Blocking<AuthenticationError>) -> ServiceError {
        match error {
            Blocking::Error(e) => <ServiceError as vstd::std_specs::convert::FromSpec<
                AuthenticationError,
            >>::from_spec(e),
            Blocking::Canceled => ServiceError::InternalServerError,
        }
    }
}

impl From<Blocking<ServiceError>> for ServiceError {
    fn from(error: Blocking<ServiceError>) -> (r: ServiceError) {
        match error {
            Blocking::Error(e) => e,
            Blocking::Canceled => ServiceError::InternalServerError,
        }
    }
}

impl FromSpecImpl<Blocking<ServiceError>> for ServiceError {
    open spec fn obeys_from_spec() -> bool {
        true
    }

    open spec fn from_spec(error: Blocking<ServiceError>) -> ServiceError {
        match error {
            Blocking::Error(e) => e,
            Blocking::Canceled => ServiceError::InternalServerError,
        }
    }
}

impl ServiceError {
    /// The HTTP status of the error.
    pub open spec fn status(self) -> u16 {
        match self {
            ServiceError::InternalServerError => 500,
            ServiceError::NotFound => 404,
            ServiceError::NoContent => 204,
            ServiceError::Forbidden => 403,
        }
    }

    /// The text that the error's response carries.
    pub open spec fn text(self) -> Seq<char> {
        match self {
            ServiceError::InternalServerError => "Internal Server Error, Please try later"@,
            ServiceError::NotFound => "Not found"@,
            ServiceError::NoContent => "No content"@,
            ServiceError::Forbidden => "Access forbidden"@,
        }
    }

    /// The HTTP status of the error.
    pub fn status_code(&self) -> (r: u16)
        ensures
            r == self.status(),
    {
        match self {
            ServiceError::InternalServerError => 500,
            ServiceError::NotFound => 404,
            ServiceError::NoContent => 204,
            ServiceError::Forbidden => 403,
        }
    }

    /// The response that reports the error: its status, and its text, bare
    /// for an internal error and in the field `msg` for the others.
    pub fn error_response(&self) -> (r: ErrorResponse)
        ensures
            r.status == self.status(),
            *self == ServiceError::InternalServerError ==> (r.body matches ErrorBody::Text(t)
                && t@ == self.text()),
            *self != ServiceError::InternalServerError ==> (r.body matches ErrorBody::Message(t)
                && t@ == self.text()),
    {
        match self {
            ServiceError::InternalServerError => ErrorResponse {
                status: 500,
                body: ErrorBody::Text("Internal Server Error, Please try later".to_owned()),
            },
            ServiceError::NotFound => ErrorResponse {
                status: 404,
                body: ErrorBody::Message("Not found".to_owned()),
            },
            ServiceError::NoContent => ErrorResponse {
                status: 204,
                body: ErrorBody::Message("No content".to_owned()),
            },
            ServiceError::Forbidden => ErrorResponse {
                status: 403,
                body: ErrorBody::Message("Access forbidden".to_owned()),
            },
        }
    }

    /// The row, or `NotFound` where there is none.
    pub fn found<T>(row: Option<T>) -> (r: Result<T, ServiceError>)
        ensures
            r == match row {
                Some(t) => Ok::<T, ServiceError>(t),
                None => Err::<T, ServiceError>(ServiceError::NotFound),
            },
    {
        match row {
            Some(t) => Ok(t),
            None => Err(ServiceError::NotFound),
        }
    }

    /// `NotFound` where a deletion deleted nothing.
    pub fn deleted(count: usize) -> (r: Result<(), ServiceError>)
        ensures
            r == if count == 0 {
                Err::<(), ServiceError>(ServiceError::NotFound)
            } else {
                Ok::<(), ServiceError>(())
            },
    {
        if count == 0 {
            Err(ServiceError::NotFound)
        } else {
            Ok(())
        }
    }
}

} // verus!
