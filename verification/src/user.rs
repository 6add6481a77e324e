//! Users of the service.

pub mod auth;
pub mod model;
pub mod routes;

pub use model::{User, UserData, UserError, UserResponse, UserResponseView, UserView};
