//! Data model and rules of a small chat service: users, rooms, the
//! membership relation between them, messages, and password authentication.
//!
//! Persistent state is modelled by [`store::Store`], four tables held as plain
//! values. Every operation states in its contract how it reads or changes the
//! tables.

pub mod errors;
pub mod message;
pub mod room;
pub mod rows;
pub mod store;
pub mod test_db;
pub mod trusted;
pub mod user;
