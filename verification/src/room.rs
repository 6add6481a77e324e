//! Rooms and the membership relation between rooms and users.

pub mod model;
pub mod routes;

pub use model::{Room, RoomData, RoomDetails, RoomError, RoomUser, RoomUserView, RoomView};
