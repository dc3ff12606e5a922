use vstd::prelude::*;

use crate::game::{GameState, Symbol};

verus! {

/// What a client asks for over its websocket.
#[derive(Debug)]
pub enum ClientEvent {
    JoinRoom { room_id: String, user_id: String, username: String },
    MakeMove { room_id: String, row: usize, col: usize },
    LeaveRoom { room_id: String },
}

/// A seated player as other clients see them.
#[derive(Debug)]
pub struct PlayerInfo {
    pub username: String,
    pub symbol: Symbol,
}

/// What the server tells clients.
#[derive(Debug)]
pub enum ServerEvent {
    RoomJoined {
        room_id: String,
        your_symbol: Symbol,
        game_state: GameState,
        players: Vec<PlayerInfo>,
    },
    PlayerJoined { username: String, symbol: Symbol },
    GameStarted { game_state: GameState },
    MoveMade { username: String, row: usize, col: usize, symbol: Symbol, game_state: GameState },
    /// `winner` is the winner's username, or `None` for a draw.
    GameOver { winner: Option<String>, game_state: GameState },
    PlayerLeft { username: String },
    ChatMessage { username: String, message: String },
    Error { message: String },
}

} // verus!
