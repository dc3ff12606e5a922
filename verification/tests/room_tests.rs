use tictactoe::game::{GameResult, GameStatus, Symbol};
use tictactoe::room::{Player, Room};

fn player(uid: &str, name: &str, session: u64) -> Player {
    Player {
        user_id: uid.to_string(),
        username: name.to_string(),
        symbol: Symbol::O,
        session,
        connected: true,
    }
}

#[test]
fn new_room_is_empty() {
    let room = Room::new("r1".to_string(), "Lobby".to_string());
    assert_eq!(room.room_id, "r1");
    assert_eq!(room.room_name, "Lobby");
    assert!(room.players.is_empty());
    assert!(room.spectators.is_empty());
    assert_eq!(room.game_state.status, GameStatus::Waiting);
    assert!(room.created_at > 0);
}

#[test]
fn first_gets_x_second_gets_o_and_game_starts() {
    let mut room = Room::new("r".to_string(), "n".to_string());
    assert_eq!(room.add_player(player("a", "Ann", 1)), Ok(()));
    assert_eq!(room.players[0].symbol, Symbol::X);
    assert_eq!(room.game_state.status, GameStatus::Waiting);
    assert_eq!(room.add_player(player("b", "Bob", 2)), Ok(()));
    assert_eq!(room.players[1].symbol, Symbol::O);
    assert_eq!(room.game_state.status, GameStatus::InProgress);
}

#[test]
fn third_player_gets_o_and_changes_nothing_else() {
    let mut room = Room::new("r".to_string(), "n".to_string());
    room.add_player(player("a", "Ann", 1)).unwrap();
    room.add_player(player("b", "Bob", 2)).unwrap();
    room.game_state.status = GameStatus::Completed;
    room.add_player(player("c", "Cy", 3)).unwrap();
    assert_eq!(room.players.len(), 3);
    assert_eq!(room.players[2].symbol, Symbol::O);
    assert_eq!(room.game_state.status, GameStatus::Completed);
}

#[test]
fn rejoin_reconnects_with_new_session() {
    let mut room = Room::new("r".to_string(), "n".to_string());
    room.add_player(player("a", "Ann", 1)).unwrap();
    room.players[0].connected = false;
    let mut again = player("a", "Other", 9);
    again.connected = false;
    assert_eq!(room.add_player(again), Ok(()));
    assert_eq!(room.players.len(), 1);
    assert!(room.players[0].connected);
    assert_eq!(room.players[0].session, 9);
    assert_eq!(room.players[0].username, "Ann");
    assert_eq!(room.players[0].symbol, Symbol::X);
}

#[test]
fn remove_from_empty_room_is_refused() {
    let mut room = Room::new("r".to_string(), "n".to_string());
    assert_eq!(room.remove_player("a".to_string()), Err("Room is already empty".to_string()));
}

#[test]
fn remove_keeps_others_in_order() {
    let mut room = Room::new("r".to_string(), "n".to_string());
    room.add_player(player("a", "Ann", 1)).unwrap();
    room.add_player(player("b", "Bob", 2)).unwrap();
    room.add_player(player("c", "Cy", 3)).unwrap();
    assert_eq!(room.remove_player("b".to_string()), Ok(()));
    let ids: Vec<&str> = room.players.iter().map(|p| p.user_id.as_str()).collect();
    assert_eq!(ids, vec!["a", "c"]);
    assert_eq!(room.game_state.status, GameStatus::InProgress);
    assert_eq!(room.remove_player("zz".to_string()), Ok(()));
    assert_eq!(room.players.len(), 2);
}

#[test]
fn removing_last_player_ends_game_as_draw() {
    let mut room = Room::new("r".to_string(), "n".to_string());
    room.add_player(player("a", "Ann", 1)).unwrap();
    assert_eq!(room.remove_player("a".to_string()), Ok(()));
    assert!(room.players.is_empty());
    assert_eq!(room.game_state.status, GameStatus::Completed);
    assert_eq!(room.game_state.result, Some(GameResult::Draw));
}

#[test]
fn get_player_finds_by_user_id() {
    let mut room = Room::new("r".to_string(), "n".to_string());
    room.add_player(player("a", "Ann", 1)).unwrap();
    room.add_player(player("b", "Bob", 2)).unwrap();
    assert_eq!(room.get_player("b").map(|p| p.username.clone()), Some("Bob".to_string()));
    assert!(room.get_player("x").is_none());
    room.get_player_mut("a").unwrap().connected = false;
    assert!(!room.players[0].connected);
    assert!(room.get_player_mut("x").is_none());
}

#[test]
fn broadcast_targets_are_connected_sessions() {
    let mut room = Room::new("r".to_string(), "n".to_string());
    room.add_player(player("a", "Ann", 11)).unwrap();
    room.add_player(player("b", "Bob", 22)).unwrap();
    room.add_player(player("c", "Cy", 33)).unwrap();
    room.players[1].connected = false;
    assert_eq!(room.broadcast_targets(), vec![11, 33]);
    let infos = room.player_infos();
    assert_eq!(infos.len(), 3);
    assert_eq!(infos[0].username, "Ann");
    assert_eq!(infos[0].symbol, Symbol::X);
    assert_eq!(infos[2].symbol, Symbol::O);
}

#[test]
fn seating_and_unseating_leave_the_board_alone() {
    let mut room = Room::new("r".to_string(), "n".to_string());
    room.add_player(player("a", "Ann", 1)).unwrap();
    room.add_player(player("b", "Bob", 2)).unwrap();
    room.game_state.make_move(0, 0, Symbol::X, "a".to_string()).unwrap();
    let board = room.game_state.board;
    room.add_player(player("c", "Cy", 3)).unwrap();
    room.remove_player("b".to_string()).unwrap();
    assert_eq!(room.game_state.board, board);
    assert_eq!(room.game_state.move_count, 1);
    assert!(room.get_player("b").is_none());
    let mut ids: Vec<&str> = room.players.iter().map(|p| p.user_id.as_str()).collect();
    ids.dedup();
    assert_eq!(ids.len(), room.players.len());
}

#[test]
fn opened_at_keeps_the_given_time() {
    let room = Room::opened_at("r".to_string(), "n".to_string(), 1_700_000_000_123);
    assert_eq!(room.created_at, 1_700_000_000_123);
    assert_eq!(room.room_id, "r");
    assert!(room.players.is_empty());
    assert_eq!(room.game_state.status, GameStatus::Waiting);
}
