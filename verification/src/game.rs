use vstd::prelude::*;

verus! {

/// The mark a player puts on the board.
#[derive(Debug, Clone, Copy, PartialEq, Eq, Structural)]
pub enum Symbol {
    X,
    O,
}

/// Where a game stands.
#[derive(Debug, Clone, PartialEq, Eq, Structural)]
pub enum GameStatus {
    /// Waiting for the second player.
    Waiting,
    /// The game is active.
    InProgress,
    /// The game is over.
    Completed,
}

/// How a finished game ended.
#[derive(Debug, PartialEq)]
pub enum GameResult {
    /// The winner's user id.
    Win(String),
    Draw,
}

/// The board and the bookkeeping of one game.
#[derive(Debug)]
pub struct GameState {
    pub board: [[Option<Symbol>; 3]; 3],
    pub current_turn: Symbol,
    pub status: GameStatus,
    pub result: Option<GameResult>,
    pub move_count: u8,
}

impl Clone for GameResult {
    fn clone(&self) -> (r: Self)
        ensures
            r == *self,
    {
        match self {
            GameResult::Win(w) => GameResult::Win(w.clone()),
            GameResult::Draw => GameResult::Draw,
        }
    }
}

impl Clone for GameState {
    fn clone(&self) -> (r: Self)
        ensures
            r == *self,
    {
        let result = match &self.result {
            Some(res) => Some(res.clone()),
            None => None,
        };
        GameState {
            board: self.board,
            current_turn: self.current_turn,
            status: match self.status {
                GameStatus::Waiting => GameStatus::Waiting,
                GameStatus::InProgress => GameStatus::InProgress,
                GameStatus::Completed => GameStatus::Completed,
            },
            result,
            move_count: self.move_count,
        }
    }
}

/// The mark in row `r`, column `c`.
pub open spec fn cell(gs: GameState, r: int, c: int) -> Option<Symbol> {
    gs.board[r][c]
}

/// A fresh game: empty board, X to move, waiting for players.
pub open spec fn is_initial(gs: GameState) -> bool {
    &&& forall|r: int, c: int| 0 <= r < 3 && 0 <= c < 3 ==> #[trigger] cell(gs, r, c) is None
    &&& gs.current_turn == Symbol::X
    &&& gs.status == GameStatus::Waiting
    &&& gs.result is None
    &&& gs.move_count == 0
}

/// The other player's mark.
pub open spec fn other(s: Symbol) -> Symbol {
    match s {
        Symbol::X => Symbol::O,
        Symbol::O => Symbol::X,
    }
}

/// Row `r`, column `c` holds mark `s`.
pub open spec fn marked(gs: GameState, r: int, c: int, s: Symbol) -> bool {
    cell(gs, r, c) == Some(s)
}

/// Mark `s` fills a row, a column or a diagonal.
pub open spec fn has_line(gs: GameState, s: Symbol) -> bool {
    ||| marked(gs, 0, 0, s) && marked(gs, 0, 1, s) && marked(gs, 0, 2, s)
    ||| marked(gs, 1, 0, s) && marked(gs, 1, 1, s) && marked(gs, 1, 2, s)
    ||| marked(gs, 2, 0, s) && marked(gs, 2, 1, s) && marked(gs, 2, 2, s)
    ||| marked(gs, 0, 0, s) && marked(gs, 1, 0, s) && marked(gs, 2, 0, s)
    ||| marked(gs, 0, 1, s) && marked(gs, 1, 1, s) && marked(gs, 2, 1, s)
    ||| marked(gs, 0, 2, s) && marked(gs, 1, 2, s) && marked(gs, 2, 2, s)
    ||| marked(gs, 0, 0, s) && marked(gs, 1, 1, s) && marked(gs, 2, 2, s)
    ||| marked(gs, 0, 2, s) && marked(gs, 1, 1, s) && marked(gs, 2, 0, s)
}

/// Why a move of `s` at (`row`, `col`) is refused, checked in this order; `None`
/// when the move is legal.
pub open spec fn move_error(gs: GameState, row: usize, col: usize, s: Symbol) -> Option<Seq<char>> {
    if gs.status != GameStatus::InProgress {
        Some("Game not in progress"@)
    } else if gs.current_turn != s {
        Some("Not your turn"@)
    } else if row >= 3 || col >= 3 {
        Some("Invalid position"@)
    } else if cell(gs, row as int, col as int) is Some {
        Some("Position already occupied"@)
    } else {
        None
    }
}

/// `post`'s board is `pre`'s with mark `s` added at (`row`, `col`).
pub open spec fn board_after(pre: GameState, post: GameState, row: int, col: int, s: Symbol) -> bool {
    forall|r: int, c: int|
        0 <= r < 3 && 0 <= c < 3 ==> #[trigger] cell(post, r, c) == if r == row && c == col {
            Some(s)
        } else {
            cell(pre, r, c)
        }
}

/// What a move of `s` at (`row`, `col`) by user `user_id` does to the game `pre`:
/// a refused move leaves it unchanged and reports why; a legal move places the
/// mark, counts it, and then either ends the game with a win for `user_id`, ends
/// it with a draw on the ninth move, or passes the turn to the other mark. The
/// result tells whether the game ended.
pub open spec fn move_outcome(
    pre: GameState,
    post: GameState,
    row: usize,
    col: usize,
    s: Symbol,
    user_id: String,
    r: Result<bool, String>,
) -> bool {
    match move_error(pre, row, col, s) {
        Some(msg) => r matches Err(e) && e@ == msg && post == pre,
        None => {
            &&& board_after(pre, post, row as int, col as int, s)
            &&& post.move_count == pre.move_count + 1
            &&& if has_line(post, s) {
                &&& r == Ok::<bool, String>(true)
                &&& post.status == GameStatus::Completed
                &&& post.result == Some(GameResult::Win(user_id))
                &&& post.current_turn == pre.current_turn
            } else if post.move_count == 9 {
                &&& r == Ok::<bool, String>(true)
                &&& post.status == GameStatus::Completed
                &&& post.result == Some(GameResult::Draw)
                &&& post.current_turn == pre.current_turn
            } else {
                &&& r == Ok::<bool, String>(false)
                &&& post.status == pre.status
                &&& post.result == pre.result
                &&& post.current_turn == other(s)
            }
        },
    }
}

impl GameState {
    pub fn new() -> (gs: Self)
        ensures
            is_initial(gs),
    {
        let gs = GameState {
            board: [[None, None, None], [None, None, None], [None, None, None]],
            current_turn: Symbol::X,
            status: GameStatus::Waiting,
            result: None,
            move_count: 0,
        };
        assert(forall|r: int, c: int| 0 <= r < 3 && 0 <= c < 3 ==> #[trigger] cell(gs, r, c) is None);
        gs
    }

    /// Plays mark `symbol` for user `user_id` at (`row`, `col`); `Ok(true)` when
    /// the move ends the game.
    pub fn make_move(&mut self, row: usize, col: usize, symbol: Symbol, user_id: String) -> (r:
        Result<bool, String>)
        requires
            move_error(*old(self), row, col, symbol) is None ==> old(self).move_count
                < 255,
        ensures
            move_outcome(*old(self), *final(self), row, col, symbol, user_id, r),
    {
        if self.status != GameStatus::InProgress {
            return Err("Game not in progress".to_string());
        }
        if self.current_turn != symbol {
            return Err("Not your turn".to_string());
        }
        if row >= 3 || col >= 3 {
            return Err("Invalid position".to_string());
        }
        if self.board[row][col].is_some() {
            return Err("Position already occupied".to_string());
        }
        let ghost pre = *self;
        let mut line = self.board[row];
        line[col] = Some(symbol);
        self.board[row] = line;
        self.move_count = self.move_count + 1;
        assert(board_after(pre, *self, row as int, col as int, symbol));
        if self.check_winner(symbol) {
            self.status = GameStatus::Completed;
            self.result = Some(GameResult::Win(user_id));
            return Ok(true);
        }
        if self.move_count == 9 {
            self.status = GameStatus::Completed;
            self.result = Some(GameResult::Draw);
            return Ok(true);
        }
        self.current_turn = match symbol {
            Symbol::X => Symbol::O,
            Symbol::O => Symbol::X,
        };
        Ok(false)
    }

    /// Whether `symbol` fills a row, a column or a diagonal.
    pub fn check_winner(&self, symbol: Symbol) -> (r: bool)
        ensures
            r == has_line(*self, symbol),
    {
        let s = Some(symbol);
        for row in 0..3
            invariant
                s == Some(symbol),
                forall|k: int|
                    0 <= k < row ==> !(marked(*self, k, 0, symbol) && marked(*self, k, 1, symbol)
                        && marked(*self, k, 2, symbol)),
        {
            if self.board[row][0] == s && self.board[row][1] == s && self.board[row][2] == s {
                return true;
            }
        }
        for col in 0..3
            invariant
                s == Some(symbol),
                forall|k: int|
                    0 <= k < 3 ==> !(marked(*self, k, 0, symbol) && marked(*self, k, 1, symbol)
                        && marked(*self, k, 2, symbol)),
                forall|k: int|
                    0 <= k < col ==> !(marked(*self, 0, k, symbol) && marked(*self, 1, k, symbol)
                        && marked(*self, 2, k, symbol)),
        {
            if self.board[0][col] == s && self.board[1][col] == s && self.board[2][col] == s {
                return true;
            }
        }
        if self.board[0][0] == s && self.board[1][1] == s && self.board[2][2] == s {
            return true;
        }
        if self.board[0][2] == s && self.board[1][1] == s && self.board[2][0] == s {
            return true;
        }
        false
    }
}

} // verus!

verus! {

/// 1 when row `r`, column `c` holds `s`, else 0.
pub open spec fn mark_at(gs: GameState, r: int, c: int, s: Symbol) -> int {
    if marked(gs, r, c, s) {
        1
    } else {
        0
    }
}

/// How many cells hold mark `s`.
pub open spec fn count_mark(gs: GameState, s: Symbol) -> int {
    mark_at(gs, 0, 0, s) + mark_at(gs, 0, 1, s) + mark_at(gs, 0, 2, s) + mark_at(gs, 1, 0, s)
        + mark_at(gs, 1, 1, s) + mark_at(gs, 1, 2, s) + mark_at(gs, 2, 0, s) + mark_at(gs, 2, 1, s)
        + mark_at(gs, 2, 2, s)
}

/// The move counter equals the number of marks on the board.
pub open spec fn count_consistent(gs: GameState) -> bool {
    gs.move_count == count_mark(gs, Symbol::X) + count_mark(gs, Symbol::O)
}

/// X has played as often as O or once more, and while the game is in progress
/// it is X's turn exactly when both have played equally often.
pub open spec fn turn_consistent(gs: GameState) -> bool {
    let d = count_mark(gs, Symbol::X) - count_mark(gs, Symbol::O);
    &&& (d == 0 || d == 1)
    &&& gs.status == GameStatus::InProgress ==> (gs.current_turn == Symbol::X <==> d == 0)
}

proof fn lemma_counts_after_mark(pre: GameState, post: GameState, row: int, col: int, s: Symbol)
    requires
        0 <= row < 3,
        0 <= col < 3,
        cell(pre, row, col) is None,
        board_after(pre, post, row, col, s),
    ensures
        count_mark(post, s) == count_mark(pre, s) + 1,
        count_mark(post, other(s)) == count_mark(pre, other(s)),
{
    assert(cell(post, 0, 0) == if row == 0 && col == 0 { Some(s) } else { cell(pre, 0, 0) });
    assert(cell(post, 0, 1) == if row == 0 && col == 1 { Some(s) } else { cell(pre, 0, 1) });
    assert(cell(post, 0, 2) == if row == 0 && col == 2 { Some(s) } else { cell(pre, 0, 2) });
    assert(cell(post, 1, 0) == if row == 1 && col == 0 { Some(s) } else { cell(pre, 1, 0) });
    assert(cell(post, 1, 1) == if row == 1 && col == 1 { Some(s) } else { cell(pre, 1, 1) });
    assert(cell(post, 1, 2) == if row == 1 && col == 2 { Some(s) } else { cell(pre, 1, 2) });
    assert(cell(post, 2, 0) == if row == 2 && col == 0 { Some(s) } else { cell(pre, 2, 0) });
    assert(cell(post, 2, 1) == if row == 2 && col == 1 { Some(s) } else { cell(pre, 2, 1) });
    assert(cell(post, 2, 2) == if row == 2 && col == 2 { Some(s) } else { cell(pre, 2, 2) });
}

/// A new game satisfies both bookkeeping invariants.
pub proof fn initial_state_consistent(gs: GameState)
    requires
        is_initial(gs),
    ensures
        count_consistent(gs),
        turn_consistent(gs),
{
    assert(cell(gs, 0, 0) is None && cell(gs, 0, 1) is None && cell(gs, 0, 2) is None);
    assert(cell(gs, 1, 0) is None && cell(gs, 1, 1) is None && cell(gs, 1, 2) is None);
    assert(cell(gs, 2, 0) is None && cell(gs, 2, 1) is None && cell(gs, 2, 2) is None);
}

/// In a game whose counter matches its board at most nine moves have been made,
/// so a move never overflows the counter.
pub proof fn consistent_counter_bounded(gs: GameState)
    requires
        count_consistent(gs),
    ensures
        gs.move_count <= 9,
{
}

/// Every move keeps the move counter equal to the number of marks on the board.
pub proof fn move_keeps_count_consistent(
    pre: GameState,
    post: GameState,
    row: usize,
    col: usize,
    s: Symbol,
    user_id: String,
    r: Result<bool, String>,
)
    requires
        count_consistent(pre),
        move_outcome(pre, post, row, col, s, user_id, r),
    ensures
        count_consistent(post),
{
    if move_error(pre, row, col, s) is None {
        lemma_counts_after_mark(pre, post, row as int, col as int, s);
        assert(s == Symbol::X || s == Symbol::O);
    }
}

/// Every move keeps X and O alternating: X is never behind O nor more than one
/// mark ahead, and an ongoing game gives the turn to the mark that is behind.
pub proof fn move_keeps_turns_alternating(
    pre: GameState,
    post: GameState,
    row: usize,
    col: usize,
    s: Symbol,
    user_id: String,
    r: Result<bool, String>,
)
    requires
        turn_consistent(pre),
        move_outcome(pre, post, row, col, s, user_id, r),
    ensures
        turn_consistent(post),
{
    if move_error(pre, row, col, s) is None {
        lemma_counts_after_mark(pre, post, row as int, col as int, s);
    }
}

/// A game that is not in progress refuses every move and stays as it is.
pub proof fn finished_or_waiting_game_is_frozen(
    pre: GameState,
    post: GameState,
    row: usize,
    col: usize,
    s: Symbol,
    user_id: String,
    r: Result<bool, String>,
)
    requires
        pre.status != GameStatus::InProgress,
        move_outcome(pre, post, row, col, s, user_id, r),
    ensures
        r is Err,
        post == pre,
{
}

/// A move that ends the game with a win gives the mover a full line, and a move
/// that ends it with a draw is the ninth.
pub proof fn game_ends_only_by_line_or_full_board(
    pre: GameState,
    post: GameState,
    row: usize,
    col: usize,
    s: Symbol,
    user_id: String,
    r: Result<bool, String>,
)
    requires
        move_outcome(pre, post, row, col, s, user_id, r),
        r == Ok::<bool, String>(true),
    ensures
        post.status == GameStatus::Completed,
        post.result matches Some(GameResult::Win(w)) ==> w == user_id && has_line(post, s),
        post.result matches Some(GameResult::Draw) ==> post.move_count == 9 && !has_line(post, s),
{
}

} // verus!

verus! {

/// A mark fills a line exactly when some row, some column, the main diagonal
/// or the anti-diagonal holds that mark in all three cells; no other
/// arrangement (three corners, say) counts.
pub proof fn line_is_row_column_or_diagonal(gs: GameState, s: Symbol)
    ensures
        has_line(gs, s) <==> (exists|k: int|
            #![trigger gs.board[k]]
            0 <= k < 3 && gs.board[k][0] == Some(s) && gs.board[k][1] == Some(s) && gs.board[k][2]
                == Some(s)) || (exists|k: int|
            #![trigger gs.board[0][k]]
            0 <= k < 3 && gs.board[0][k] == Some(s) && gs.board[1][k] == Some(s) && gs.board[2][k]
                == Some(s)) || (gs.board[0][0] == Some(s) && gs.board[1][1] == Some(s)
            && gs.board[2][2] == Some(s)) || (gs.board[0][2] == Some(s) && gs.board[1][1] == Some(
            s,
        ) && gs.board[2][0] == Some(s)),
{
    let b = gs.board;
    if marked(gs, 0, 0, s) && marked(gs, 0, 1, s) && marked(gs, 0, 2, s) {
        assert(b[0][0] == Some(s));
    }
    if marked(gs, 1, 0, s) && marked(gs, 1, 1, s) && marked(gs, 1, 2, s) {
        assert(b[1][0] == Some(s));
    }
    if marked(gs, 2, 0, s) && marked(gs, 2, 1, s) && marked(gs, 2, 2, s) {
        assert(b[2][0] == Some(s));
    }
    if marked(gs, 0, 0, s) && marked(gs, 1, 0, s) && marked(gs, 2, 0, s) {
        assert(b[0][0] == Some(s));
    }
    if marked(gs, 0, 1, s) && marked(gs, 1, 1, s) && marked(gs, 2, 1, s) {
        assert(b[0][1] == Some(s));
    }
    if marked(gs, 0, 2, s) && marked(gs, 1, 2, s) && marked(gs, 2, 2, s) {
        assert(b[0][2] == Some(s));
    }
    if exists|k: int|
        #![trigger b[k]]
        0 <= k < 3 && b[k][0] == Some(s) && b[k][1] == Some(s) && b[k][2] == Some(s) {
        let k = choose|k: int|
            #![trigger b[k]]
            0 <= k < 3 && b[k][0] == Some(s) && b[k][1] == Some(s) && b[k][2] == Some(s);
        assert(k == 0 || k == 1 || k == 2);
    }
    if exists|k: int|
        #![trigger b[0][k]]
        0 <= k < 3 && b[0][k] == Some(s) && b[1][k] == Some(s) && b[2][k] == Some(s) {
        let k = choose|k: int|
            #![trigger b[0][k]]
            0 <= k < 3 && b[0][k] == Some(s) && b[1][k] == Some(s) && b[2][k] == Some(s);
        assert(k == 0 || k == 1 || k == 2);
    }
}

} // verus!
