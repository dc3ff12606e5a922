use tictactoe::events::ServerEvent;
use tictactoe::game::{GameResult, GameStatus, Symbol};
use tictactoe::lobby::RoomTable;

fn table_with_room() -> RoomTable {
    let mut t = RoomTable::new();
    t.open_room("r1".to_string(), "Room one".to_string());
    t
}

#[test]
fn open_room_then_find_it() {
    let mut t = RoomTable::new();
    assert!(t.room("r1").is_none());
    t.open_room("r1".to_string(), "Room one".to_string());
    t.open_room("r2".to_string(), "Room two".to_string());
    assert_eq!(t.room("r1").unwrap().room_name, "Room one");
    assert_eq!(t.room("r2").unwrap().room_name, "Room two");
}

#[test]
fn reopening_a_room_replaces_it() {
    let mut t = table_with_room();
    t.join_room(1, "r1".to_string(), "a".to_string(), "Ann".to_string()).unwrap();
    t.open_room("r1".to_string(), "Fresh".to_string());
    let room = t.room("r1").unwrap();
    assert_eq!(room.room_name, "Fresh");
    assert!(room.players.is_empty());
}

#[test]
fn join_unknown_room_is_refused() {
    let mut t = table_with_room();
    let r = t.join_room(1, "nope".to_string(), "a".to_string(), "Ann".to_string());
    assert_eq!(r.err(), Some("Room not found".to_string()));
}

#[test]
fn first_join_answers_and_tells_the_room() {
    let mut t = table_with_room();
    let plan = t.join_room(7, "r1".to_string(), "a".to_string(), "Ann".to_string()).unwrap();
    match &plan.reply {
        ServerEvent::RoomJoined { room_id, your_symbol, game_state, players } => {
            assert_eq!(room_id, "r1");
            assert_eq!(*your_symbol, Symbol::X);
            assert_eq!(game_state.status, GameStatus::Waiting);
            assert_eq!(players.len(), 1);
            assert_eq!(players[0].username, "Ann");
        }
        other => panic!("unexpected {:?}", other),
    }
    assert_eq!(plan.broadcasts.len(), 1);
    assert_eq!(plan.broadcasts[0].targets, vec![7]);
    assert!(matches!(&plan.broadcasts[0].event,
        ServerEvent::PlayerJoined { username, symbol } if username == "Ann" && *symbol == Symbol::X));
}

#[test]
fn second_join_starts_the_game() {
    let mut t = table_with_room();
    t.join_room(7, "r1".to_string(), "a".to_string(), "Ann".to_string()).unwrap();
    let plan = t.join_room(8, "r1".to_string(), "b".to_string(), "Bob".to_string()).unwrap();
    assert!(matches!(&plan.reply, ServerEvent::RoomJoined { your_symbol: Symbol::O, .. }));
    assert_eq!(plan.broadcasts.len(), 2);
    assert_eq!(plan.broadcasts[0].targets, vec![7, 8]);
    assert!(matches!(&plan.broadcasts[1].event,
        ServerEvent::GameStarted { game_state } if game_state.status == GameStatus::InProgress));
    assert_eq!(t.room("r1").unwrap().game_state.status, GameStatus::InProgress);
}

#[test]
fn rejoin_reports_seat_order_mark() {
    let mut t = table_with_room();
    t.join_room(7, "r1".to_string(), "a".to_string(), "Ann".to_string()).unwrap();
    t.join_room(8, "r1".to_string(), "b".to_string(), "Bob".to_string()).unwrap();
    let plan = t.join_room(9, "r1".to_string(), "a".to_string(), "Ann".to_string()).unwrap();
    // The room is not empty, so the announced mark is O although Ann plays X.
    assert!(matches!(&plan.reply, ServerEvent::RoomJoined { your_symbol: Symbol::O, .. }));
    let room = t.room("r1").unwrap();
    assert_eq!(room.players.len(), 2);
    assert_eq!(room.players[0].session, 9);
    assert_eq!(room.players[0].symbol, Symbol::X);
    assert_eq!(plan.broadcasts.len(), 2);
    assert_eq!(plan.broadcasts[0].targets, vec![9, 8]);
}

fn two_player_table() -> RoomTable {
    let mut t = table_with_room();
    t.join_room(7, "r1".to_string(), "a".to_string(), "Ann".to_string()).unwrap();
    t.join_room(8, "r1".to_string(), "b".to_string(), "Bob".to_string()).unwrap();
    t
}

#[test]
fn move_errors() {
    let mut t = two_player_table();
    assert_eq!(t.make_move("zz".to_string(), "a".to_string(), 0, 0).err(), Some("Room not found".to_string()));
    assert_eq!(t.make_move("r1".to_string(), "zz".to_string(), 0, 0).err(), Some("Not in this room".to_string()));
    assert_eq!(t.make_move("r1".to_string(), "b".to_string(), 0, 0).err(), Some("Not your turn".to_string()));
    assert_eq!(t.room("r1").unwrap().game_state.move_count, 0);
}

#[test]
fn move_is_broadcast() {
    let mut t = two_player_table();
    let ds = t.make_move("r1".to_string(), "a".to_string(), 1, 2).unwrap();
    assert_eq!(ds.len(), 1);
    assert_eq!(ds[0].targets, vec![7, 8]);
    match &ds[0].event {
        ServerEvent::MoveMade { username, row, col, symbol, game_state } => {
            assert_eq!(username, "Ann");
            assert_eq!((*row, *col), (1, 2));
            assert_eq!(*symbol, Symbol::X);
            assert_eq!(game_state.board[1][2], Some(Symbol::X));
            assert_eq!(game_state.current_turn, Symbol::O);
        }
        other => panic!("unexpected {:?}", other),
    }
}

#[test]
fn winning_move_announces_winner() {
    let mut t = two_player_table();
    for (uid, r, c) in [("a", 0, 0), ("b", 1, 0), ("a", 0, 1), ("b", 1, 1)] {
        assert_eq!(t.make_move("r1".to_string(), uid.to_string(), r, c).unwrap().len(), 1);
    }
    let ds = t.make_move("r1".to_string(), "a".to_string(), 0, 2).unwrap();
    assert_eq!(ds.len(), 2);
    assert_eq!(ds[1].targets, vec![7, 8]);
    match &ds[1].event {
        ServerEvent::GameOver { winner, game_state } => {
            assert_eq!(winner.as_deref(), Some("Ann"));
            assert_eq!(game_state.result, Some(GameResult::Win("a".to_string())));
        }
        other => panic!("unexpected {:?}", other),
    }
    assert_eq!(t.make_move("r1".to_string(), "b".to_string(), 2, 2).err(), Some("Game not in progress".to_string()));
}

#[test]
fn draw_announces_no_winner() {
    let mut t = two_player_table();
    let moves = [("a", 0, 0), ("b", 0, 1), ("a", 0, 2), ("b", 1, 1), ("a", 1, 0), ("b", 1, 2), ("a", 2, 1), ("b", 2, 0)];
    for (uid, r, c) in moves {
        t.make_move("r1".to_string(), uid.to_string(), r, c).unwrap();
    }
    let ds = t.make_move("r1".to_string(), "a".to_string(), 2, 2).unwrap();
    assert!(matches!(&ds[1].event, ServerEvent::GameOver { winner: None, .. }));
}

#[test]
fn leave_errors() {
    let mut t = two_player_table();
    assert_eq!(t.leave_room("zz".to_string(), "a".to_string()).err(), Some("Room not found".to_string()));
    assert_eq!(t.leave_room("r1".to_string(), "zz".to_string()).err(), Some("Player not in room".to_string()));
}

#[test]
fn leave_tells_the_rest_and_last_leave_closes_room() {
    let mut t = two_player_table();
    let ds = t.leave_room("r1".to_string(), "a".to_string()).unwrap();
    assert_eq!(ds.len(), 1);
    assert_eq!(ds[0].targets, vec![8]);
    assert!(matches!(&ds[0].event, ServerEvent::PlayerLeft { username } if username == "Ann"));
    assert_eq!(t.room("r1").unwrap().players.len(), 1);
    let ds = t.leave_room("r1".to_string(), "b".to_string()).unwrap();
    assert!(ds.is_empty());
    assert!(t.room("r1").is_none());
}

#[test]
fn update_player_connected_sets_the_flag() {
    let mut t = two_player_table();
    assert_eq!(t.update_player_connected("zz".to_string(), "a".to_string(), false), Err("Room not found".to_string()));
    assert_eq!(t.update_player_connected("r1".to_string(), "zz".to_string(), false), Err("Not in this room".to_string()));
    assert_eq!(t.update_player_connected("r1".to_string(), "b".to_string(), false), Ok(()));
    assert!(!t.room("r1").unwrap().players[1].connected);
    let ds = t.make_move("r1".to_string(), "a".to_string(), 0, 0).unwrap();
    assert_eq!(ds[0].targets, vec![7]);
}

#[test]
fn open_room_at_stamps_the_time() {
    let mut t = RoomTable::new();
    t.open_room_at("r1".to_string(), "n".to_string(), 42);
    assert_eq!(t.room("r1").unwrap().created_at, 42);
    t.open_room_at("r1".to_string(), "m".to_string(), 43);
    assert_eq!(t.room("r1").unwrap().created_at, 43);
    assert_eq!(t.room("r1").unwrap().room_name, "m");
}

#[test]
fn finished_game_reopens_when_a_second_player_sits_down() {
    let mut t = two_player_table();
    for (uid, r, c) in [("a", 0, 0), ("b", 1, 0), ("a", 0, 1), ("b", 1, 1), ("a", 0, 2)] {
        t.make_move("r1".to_string(), uid.to_string(), r, c).unwrap();
    }
    t.leave_room("r1".to_string(), "b".to_string()).unwrap();
    t.join_room(9, "r1".to_string(), "c".to_string(), "Cy".to_string()).unwrap();
    let gs = &t.room("r1").unwrap().game_state;
    assert_eq!(gs.status, GameStatus::InProgress);
    assert_eq!(gs.current_turn, Symbol::X);
    // X is already one mark ahead and may move again.
    assert_eq!(t.make_move("r1".to_string(), "a".to_string(), 2, 2).unwrap().len(), 2);
}
