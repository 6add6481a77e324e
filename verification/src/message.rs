//! Messages posted in rooms.

pub mod model;
pub mod routes;

pub use model::{Message, MessageData, MessageError, MessageView};
