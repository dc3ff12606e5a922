//! Server-side rules of a two-player tic-tac-toe service: the board and its
//! moves, the rooms that players join and leave, the reactions of a websocket
//! connection to client events, the authentication claims and the records that
//! the HTTP routes and the database exchange.
pub mod auth;
pub mod clock;
pub mod connection;
pub mod events;
pub mod game;
pub mod lobby;
pub mod models;
pub mod room;
pub mod text;
