//! The records that the HTTP routes and the database exchange.
pub mod game;
pub mod room;
pub mod user;
