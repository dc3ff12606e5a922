use tictactoe::game::{GameResult, GameState, GameStatus, Symbol};

fn started() -> GameState {
    let mut gs = GameState::new();
    gs.status = GameStatus::InProgress;
    gs
}

fn play(gs: &mut GameState, moves: &[(usize, usize)]) -> Vec<Result<bool, String>> {
    let mut out = Vec::new();
    for &(r, c) in moves {
        let s = gs.current_turn;
        let uid = if s == Symbol::X { "ux" } else { "uo" };
        out.push(gs.make_move(r, c, s, uid.to_string()));
    }
    out
}

#[test]
fn new_game_is_empty_and_waiting() {
    let gs = GameState::new();
    assert_eq!(gs.board, [[None; 3]; 3]);
    assert_eq!(gs.current_turn, Symbol::X);
    assert_eq!(gs.status, GameStatus::Waiting);
    assert_eq!(gs.result, None);
    assert_eq!(gs.move_count, 0);
}

#[test]
fn move_before_start_is_refused() {
    let mut gs = GameState::new();
    let r = gs.make_move(0, 0, Symbol::X, "ux".to_string());
    assert_eq!(r, Err("Game not in progress".to_string()));
    assert_eq!(gs.board, [[None; 3]; 3]);
    assert_eq!(gs.move_count, 0);
}

#[test]
fn move_out_of_turn_is_refused() {
    let mut gs = started();
    let r = gs.make_move(0, 0, Symbol::O, "uo".to_string());
    assert_eq!(r, Err("Not your turn".to_string()));
    assert_eq!(gs.move_count, 0);
}

#[test]
fn move_off_board_is_refused() {
    let mut gs = started();
    assert_eq!(gs.make_move(3, 0, Symbol::X, "ux".to_string()), Err("Invalid position".to_string()));
    assert_eq!(gs.make_move(0, 7, Symbol::X, "ux".to_string()), Err("Invalid position".to_string()));
    assert_eq!(gs.current_turn, Symbol::X);
}

#[test]
fn move_on_occupied_cell_is_refused() {
    let mut gs = started();
    assert_eq!(gs.make_move(1, 1, Symbol::X, "ux".to_string()), Ok(false));
    assert_eq!(gs.make_move(1, 1, Symbol::O, "uo".to_string()), Err("Position already occupied".to_string()));
    assert_eq!(gs.board[1][1], Some(Symbol::X));
    assert_eq!(gs.move_count, 1);
    assert_eq!(gs.current_turn, Symbol::O);
}

#[test]
fn legal_move_places_mark_and_passes_turn() {
    let mut gs = started();
    assert_eq!(gs.make_move(2, 0, Symbol::X, "ux".to_string()), Ok(false));
    assert_eq!(gs.board[2][0], Some(Symbol::X));
    assert_eq!(gs.move_count, 1);
    assert_eq!(gs.current_turn, Symbol::O);
    assert_eq!(gs.status, GameStatus::InProgress);
    assert_eq!(gs.make_move(0, 2, Symbol::O, "uo".to_string()), Ok(false));
    assert_eq!(gs.board[0][2], Some(Symbol::O));
    assert_eq!(gs.current_turn, Symbol::X);
}

#[test]
fn row_wins() {
    let mut gs = started();
    let rs = play(&mut gs, &[(0, 0), (1, 0), (0, 1), (1, 1), (0, 2)]);
    assert_eq!(rs, vec![Ok(false), Ok(false), Ok(false), Ok(false), Ok(true)]);
    assert_eq!(gs.status, GameStatus::Completed);
    assert_eq!(gs.result, Some(GameResult::Win("ux".to_string())));
    assert_eq!(gs.current_turn, Symbol::X);
    assert_eq!(gs.move_count, 5);
}

#[test]
fn column_wins_for_o() {
    let mut gs = started();
    let rs = play(&mut gs, &[(0, 0), (0, 2), (1, 0), (1, 2), (2, 1), (2, 2)]);
    assert_eq!(rs.last(), Some(&Ok(true)));
    assert_eq!(gs.result, Some(GameResult::Win("uo".to_string())));
    assert_eq!(gs.current_turn, Symbol::O);
}

#[test]
fn anti_diagonal_wins() {
    let mut gs = started();
    let rs = play(&mut gs, &[(0, 2), (0, 0), (1, 1), (0, 1), (2, 0)]);
    assert_eq!(rs.last(), Some(&Ok(true)));
    assert_eq!(gs.result, Some(GameResult::Win("ux".to_string())));
}

#[test]
fn full_board_without_line_is_draw() {
    let mut gs = started();
    let rs = play(
        &mut gs,
        &[(0, 0), (0, 1), (0, 2), (1, 1), (1, 0), (1, 2), (2, 1), (2, 0), (2, 2)],
    );
    assert_eq!(rs[..8].iter().all(|r| *r == Ok(false)), true);
    assert_eq!(rs[8], Ok(true));
    assert_eq!(gs.status, GameStatus::Completed);
    assert_eq!(gs.result, Some(GameResult::Draw));
    assert_eq!(gs.move_count, 9);
}

#[test]
fn win_on_ninth_move_is_a_win() {
    let mut gs = started();
    let rs = play(
        &mut gs,
        &[(0, 0), (0, 1), (0, 2), (1, 1), (1, 0), (1, 2), (2, 1), (2, 0), (2, 2)],
    );
    assert_eq!(rs[8], Ok(true));
    let mut gs2 = started();
    let rs2 = play(
        &mut gs2,
        &[(0, 0), (0, 1), (1, 1), (0, 2), (1, 2), (1, 0), (2, 0), (2, 1), (2, 2)],
    );
    assert_eq!(rs2[8], Ok(true));
    assert_eq!(gs2.result, Some(GameResult::Win("ux".to_string())));
}

#[test]
fn finished_game_refuses_moves() {
    let mut gs = started();
    play(&mut gs, &[(0, 0), (1, 0), (0, 1), (1, 1), (0, 2)]);
    let before = gs.clone();
    assert_eq!(gs.make_move(2, 2, Symbol::X, "ux".to_string()), Err("Game not in progress".to_string()));
    assert_eq!(gs.board, before.board);
    assert_eq!(gs.move_count, before.move_count);
}

#[test]
fn check_winner_sees_each_line() {
    let lines = [
        [(0, 0), (0, 1), (0, 2)],
        [(1, 0), (1, 1), (1, 2)],
        [(2, 0), (2, 1), (2, 2)],
        [(0, 0), (1, 0), (2, 0)],
        [(0, 1), (1, 1), (2, 1)],
        [(0, 2), (1, 2), (2, 2)],
        [(0, 0), (1, 1), (2, 2)],
        [(0, 2), (1, 1), (2, 0)],
    ];
    for line in lines.iter() {
        let mut gs = GameState::new();
        for &(r, c) in line.iter() {
            gs.board[r][c] = Some(Symbol::O);
        }
        assert!(gs.check_winner(Symbol::O));
        assert!(!gs.check_winner(Symbol::X));
    }
    let mut gs = GameState::new();
    gs.board[0][0] = Some(Symbol::X);
    gs.board[0][1] = Some(Symbol::X);
    gs.board[0][2] = Some(Symbol::O);
    assert!(!gs.check_winner(Symbol::X));
}

#[test]
fn clone_copies_every_field() {
    let mut gs = started();
    play(&mut gs, &[(0, 0), (1, 0), (0, 1), (1, 1), (0, 2)]);
    let c = gs.clone();
    assert_eq!(c.board, gs.board);
    assert_eq!(c.current_turn, gs.current_turn);
    assert_eq!(c.status, gs.status);
    assert_eq!(c.result, gs.result);
    assert_eq!(c.move_count, gs.move_count);
}

fn count(gs: &GameState, s: Symbol) -> u8 {
    let mut n = 0;
    for r in 0..3 {
        for c in 0..3 {
            if gs.board[r][c] == Some(s) {
                n += 1;
            }
        }
    }
    n
}

#[test]
fn counter_matches_marks_and_turns_alternate() {
    let mut gs = started();
    let moves = [(1, 1), (1, 1), (0, 0), (5, 5), (2, 2), (0, 2), (2, 0), (1, 0), (0, 1)];
    for &(r, c) in moves.iter() {
        let s = gs.current_turn;
        let _ = gs.make_move(r, c, s, "u".to_string());
        let x = count(&gs, Symbol::X);
        let o = count(&gs, Symbol::O);
        assert_eq!(gs.move_count, x + o);
        assert!(x == o || x == o + 1);
        if gs.status == GameStatus::InProgress {
            assert_eq!(gs.current_turn == Symbol::X, x == o);
        }
    }
}
