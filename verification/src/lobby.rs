use vstd::prelude::*;

use crate::events::ServerEvent;
use crate::game::{
    consistent_counter_bounded, count_consistent, move_error, move_keeps_count_consistent,
    move_outcome, GameResult, GameState, GameStatus, Symbol,
};
use crate::room::{
    add_player_keeps_users_distinct, connected_sessions, distinct_users, find_player, fresh_room,
    lemma_find_player, player_added, player_infos, player_removed, removed_player_is_gone,
    seat_symbol, without_user, Player, Room, SessionId,
};
use crate::text::same_text;

verus! {

/// One message and the sessions it goes to, in order.
#[derive(Debug)]
pub struct Delivery {
    pub targets: Vec<SessionId>,
    pub event: ServerEvent,
}

/// What a successful join sends: first `reply` to the joining session, then,
/// once that went through, `broadcasts`.
#[derive(Debug)]
pub struct JoinPlan {
    pub reply: ServerEvent,
    pub broadcasts: Vec<Delivery>,
}

/// The open rooms, each under its own room id.
pub struct RoomTable {
    rooms: Vec<Room>,
}

impl View for RoomTable {
    type V = Seq<Room>;

    closed spec fn view(&self) -> Seq<Room> {
        self.rooms@
    }
}

/// The index of the first room at or after `i` whose id is `id`.
pub open spec fn find_room_from(rs: Seq<Room>, id: Seq<char>, i: nat) -> Option<int>
    decreases rs.len() - i,
{
    if i >= rs.len() {
        None
    } else if rs[i as int].room_id@ == id {
        Some(i as int)
    } else {
        find_room_from(rs, id, i + 1)
    }
}

/// The index of the room whose id is `id`.
pub open spec fn find_room(rs: Seq<Room>, id: Seq<char>) -> Option<int> {
    find_room_from(rs, id, 0)
}

/// No two rooms share an id.
pub open spec fn distinct_rooms(rs: Seq<Room>) -> bool {
    forall|i: int, j: int|
        0 <= i < rs.len() && 0 <= j < rs.len() && i != j ==> rs[i].room_id@ != rs[j].room_id@
}

/// The table's invariant: distinct room ids, and in every room distinct user
/// ids and a move counter that matches the board.
pub open spec fn table_wf(rs: Seq<Room>) -> bool {
    &&& distinct_rooms(rs)
    &&& forall|i: int|
        0 <= i < rs.len() ==> count_consistent(#[trigger] rs[i].game_state) && distinct_users(
            rs[i].players@,
        )
}

/// `post` differs from `pre` at most in room `i`.
pub open spec fn others_unchanged(pre: Seq<Room>, post: Seq<Room>, i: int) -> bool {
    &&& post.len() == pre.len()
    &&& forall|j: int| 0 <= j < pre.len() && j != i ==> #[trigger] post[j] == pre[j]
}

/// The sole message `ds` holds is an error with text `msg` for `session`.
pub open spec fn sole_error(ds: Seq<Delivery>, session: SessionId, msg: Seq<char>) -> bool {
    &&& ds.len() == 1
    &&& ds[0].targets@ == seq![session]
    &&& ds[0].event matches ServerEvent::Error { message } && message@ == msg
}

/// `d` sends `event` to every connected player of `room`.
pub open spec fn to_room(d: Delivery, room: Room, event: ServerEvent) -> bool {
    d.targets@ == connected_sessions(room.players@) && d.event == event
}

/// Why joining room `room_id` fails.
pub open spec fn join_error(rs: Seq<Room>, room_id: Seq<char>) -> Option<Seq<char>> {
    if find_room(rs, room_id) is None {
        Some("Room not found"@)
    } else {
        None
    }
}

/// A join of `user_id` as `username` through `session` into the existing room
/// `room_id`: the user is seated in that room as `player_added` says (nothing
/// else changes), the joiner is answered with the room, the mark the seat
/// order gives, the game and the seated players, and the room learns of the
/// newcomer, and that the game starts when there are now two players.
pub open spec fn join_done(
    pre: Seq<Room>,
    post: Seq<Room>,
    session: SessionId,
    room_id: String,
    user_id: String,
    username: String,
    plan: JoinPlan,
) -> bool {
    let i = find_room(pre, room_id@)->0;
    let symbol = seat_symbol(pre[i].players@);
    let room = post[i];
    &&& others_unchanged(pre, post, i)
    &&& player_added(
        pre[i],
        room,
        Player { user_id, username, symbol: Symbol::X, session, connected: true },
    )
    &&& plan.reply matches ServerEvent::RoomJoined { room_id: rid, your_symbol, game_state, players }
        && rid == room_id && your_symbol == symbol && game_state == room.game_state && players@
        == player_infos(room.players@)
    &&& plan.broadcasts@.len() == if room.players@.len() == 2 {
        2int
    } else {
        1int
    }
    &&& to_room(plan.broadcasts@[0], room, ServerEvent::PlayerJoined { username, symbol })
    &&& room.players@.len() == 2 ==> to_room(
        plan.broadcasts@[1],
        room,
        ServerEvent::GameStarted { game_state: room.game_state },
    )
}

/// Why a move by `user_id` at (`row`, `col`) in room `room_id` is refused.
pub open spec fn play_error(
    rs: Seq<Room>,
    room_id: Seq<char>,
    user_id: Seq<char>,
    row: usize,
    col: usize,
) -> Option<Seq<char>> {
    match find_room(rs, room_id) {
        None => Some("Room not found"@),
        Some(i) => match find_player(rs[i].players@, user_id) {
            None => Some("Not in this room"@),
            Some(k) => move_error(rs[i].game_state, row, col, rs[i].players@[k].symbol),
        },
    }
}

/// The username of the winner recorded in `room`'s game, if it is seated.
pub open spec fn winner_name(room: Room) -> Option<String> {
    match room.game_state.result {
        Some(GameResult::Win(w)) => match find_player(room.players@, w@) {
            Some(k) => Some(room.players@[k].username),
            None => None,
        },
        _ => None,
    }
}

/// A legal move by `user_id` at (`row`, `col`) in room `room_id`: only that
/// room's game changes, as `move_outcome` says with the user's mark; the room
/// learns of the move, and of the end of the game when it ended.
pub open spec fn play_done(
    pre: Seq<Room>,
    post: Seq<Room>,
    room_id: String,
    user_id: String,
    row: usize,
    col: usize,
    ds: Seq<Delivery>,
) -> bool {
    let i = find_room(pre, room_id@)->0;
    let p = pre[i].players@[find_player(pre[i].players@, user_id@)->0];
    let room = post[i];
    let ended = room.game_state.status == GameStatus::Completed;
    &&& others_unchanged(pre, post, i)
    &&& room == Room { game_state: room.game_state, ..pre[i] }
    &&& move_outcome(pre[i].game_state, room.game_state, row, col, p.symbol, user_id, Ok(ended))
    &&& ds.len() == if ended {
        2int
    } else {
        1int
    }
    &&& to_room(
        ds[0],
        room,
        ServerEvent::MoveMade {
            username: p.username,
            row,
            col,
            symbol: p.symbol,
            game_state: room.game_state,
        },
    )
    &&& ended ==> to_room(
        ds[1],
        room,
        ServerEvent::GameOver { winner: winner_name(room), game_state: room.game_state },
    )
}

/// Why `user_id` cannot leave room `room_id`.
pub open spec fn leave_error(rs: Seq<Room>, room_id: Seq<char>, user_id: Seq<char>) -> Option<
    Seq<char>,
> {
    match find_room(rs, room_id) {
        None => Some("Room not found"@),
        Some(i) => if find_player(rs[i].players@, user_id) is None {
            Some("Player not in room"@)
        } else {
            None
        },
    }
}

/// `user_id` leaves room `room_id`: a room left without players is closed and
/// nobody is told; otherwise the user is unseated as `player_removed` says and
/// the room learns who left.
pub open spec fn leave_done(
    pre: Seq<Room>,
    post: Seq<Room>,
    room_id: String,
    user_id: String,
    ds: Seq<Delivery>,
) -> bool {
    let i = find_room(pre, room_id@)->0;
    let username = pre[i].players@[find_player(pre[i].players@, user_id@)->0].username;
    if without_user(pre[i].players@, user_id@).len() == 0 {
        post == pre.remove(i) && ds.len() == 0
    } else {
        &&& others_unchanged(pre, post, i)
        &&& player_removed(pre[i], post[i], user_id@)
        &&& ds.len() == 1
        &&& to_room(ds[0], post[i], ServerEvent::PlayerLeft { username })
    }
}

/// Why the connection flag of `user_id` in room `room_id` cannot be set.
pub open spec fn connect_error(rs: Seq<Room>, room_id: Seq<char>, user_id: Seq<char>) -> Option<
    Seq<char>,
> {
    match find_room(rs, room_id) {
        None => Some("Room not found"@),
        Some(i) => if find_player(rs[i].players@, user_id) is None {
            Some("Not in this room"@)
        } else {
            None
        },
    }
}

/// The first player of user id `user_id` in room `room_id` gets connection
/// flag `connected`; nothing else changes.
pub open spec fn connect_done(
    pre: Seq<Room>,
    post: Seq<Room>,
    room_id: Seq<char>,
    user_id: Seq<char>,
    connected: bool,
) -> bool {
    let i = find_room(pre, room_id)->0;
    let k = find_player(pre[i].players@, user_id)->0;
    &&& others_unchanged(pre, post, i)
    &&& post[i] == Room { players: post[i].players, ..pre[i] }
    &&& post[i].players@ == pre[i].players@.update(
        k,
        Player { connected, ..pre[i].players@[k] },
    )
}

proof fn lemma_find_room_from(rs: Seq<Room>, id: Seq<char>, i: nat)
    ensures
        find_room_from(rs, id, i) matches Some(k) ==> i <= k < rs.len() && rs[k].room_id@ == id
            && forall|j: int| i <= j < k ==> rs[j].room_id@ != id,
        find_room_from(rs, id, i) is None ==> forall|j: int|
            i <= j < rs.len() ==> rs[j].room_id@ != id,
    decreases rs.len() - i,
{
    if i < rs.len() && rs[i as int].room_id@ != id {
        lemma_find_room_from(rs, id, i + 1);
    }
}

/// With distinct ids, `find_room` finds exactly the room of that id.
pub proof fn lemma_find_room(rs: Seq<Room>, id: Seq<char>)
    requires
        distinct_rooms(rs),
    ensures
        find_room(rs, id) matches Some(k) ==> 0 <= k < rs.len() && rs[k].room_id@ == id,
        forall|j: int| 0 <= j < rs.len() && rs[j].room_id@ == id ==> find_room(rs, id) == Some(j),
        find_room(rs, id) is None <==> forall|j: int| 0 <= j < rs.len() ==> rs[j].room_id@ != id,
{
    lemma_find_room_from(rs, id, 0);
}

impl RoomTable {
    #[verifier::type_invariant]
    spec fn well_formed(self) -> bool {
        table_wf(self.rooms@)
    }

    pub fn new() -> (t: Self)
        ensures
            t@ == Seq::<Room>::empty(),
            table_wf(t@),
    {
        RoomTable { rooms: Vec::new() }
    }

    /// The position of the room with id `room_id`.
    fn position_of(&self, room_id: &str) -> (r: Option<usize>)
        ensures
            r matches Some(i) ==> i < self@.len() && find_room(self@, room_id@) == Some(i as int),
            r is None ==> find_room(self@, room_id@) is None,
    {
        let mut i: usize = 0;
        while i < self.rooms.len()
            invariant
                i <= self.rooms@.len(),
                find_room(self.rooms@, room_id@) == find_room_from(
                    self.rooms@,
                    room_id@,
                    i as nat,
                ),
            decreases self.rooms@.len() - i,
        {
            if same_text(self.rooms[i].room_id.as_str(), room_id) {
                return Some(i);
            }
            i = i + 1;
        }
        None
    }

    /// The room with id `room_id`.
    pub fn room(&self, room_id: &str) -> (r: Option<&Room>)
        ensures
            match find_room(self@, room_id@) {
                Some(i) => r matches Some(room) && *room == self@[i],
                None => r is None,
            },
    {
        match self.position_of(room_id) {
            Some(i) => Some(&self.rooms[i]),
            None => None,
        }
    }

    /// Opens a fresh room under `room_id`, in place of any room already there,
    /// stamped with the current time.
    pub fn open_room(&mut self, room_id: String, room_name: String)
        ensures
            table_wf(final(self)@),
            match find_room(old(self)@, room_id@) {
                Some(i) => others_unchanged(old(self)@, final(self)@, i) && fresh_room(
                    final(self)@[i],
                    room_id,
                    room_name,
                    final(self)@[i].created_at,
                ),
                None => final(self)@.len() == old(self)@.len() + 1 && final(self)@.take(
                    old(self)@.len() as int,
                ) == old(self)@ && fresh_room(
                    final(self)@.last(),
                    room_id,
                    room_name,
                    final(self)@.last().created_at,
                ),
            },
    {
        self.open_room_at(room_id, room_name, crate::clock::now_millis());
    }

    /// Opens a fresh room under `room_id`, in place of any room already there,
    /// stamped with `created_at`.
    pub fn open_room_at(&mut self, room_id: String, room_name: String, created_at: i64)
        ensures
            table_wf(final(self)@),
            match find_room(old(self)@, room_id@) {
                Some(i) => others_unchanged(old(self)@, final(self)@, i) && fresh_room(
                    final(self)@[i],
                    room_id,
                    room_name,
                    created_at,
                ),
                None => final(self)@.len() == old(self)@.len() + 1 && final(self)@.take(
                    old(self)@.len() as int,
                ) == old(self)@ && fresh_room(final(self)@.last(), room_id, room_name, created_at),
            },
    {
        proof {
            use_type_invariant(&*self);
        }
        let ghost pre = self@;
        proof {
            lemma_find_room(pre, room_id@);
        }
        let room = Room::opened_at(room_id.clone(), room_name, created_at);
        proof {
            crate::game::initial_state_consistent(room.game_state);
        }
        let pos = self.position_of(room_id.as_str());
        let mut rooms: Vec<Room> = Vec::new();
        std::mem::swap(&mut rooms, &mut self.rooms);
        match pos {
            Some(i) => {
                rooms[i] = room;
            },
            None => {
                rooms.push(room);
                assert(rooms@.take(pre.len() as int) =~= pre);
            },
        }
        self.rooms = rooms;
    }

    /// Seats `user_id` as `username`, reached through `session`, in room
    /// `room_id`, and says what to tell whom.
    pub fn join_room(
        &mut self,
        session: SessionId,
        room_id: String,
        user_id: String,
        username: String,
    ) -> (r: Result<JoinPlan, String>)
        ensures
            table_wf(final(self)@),
            match join_error(old(self)@, room_id@) {
                Some(msg) => r matches Err(e) && e@ == msg && final(self)@ == old(self)@,
                None => r matches Ok(plan) && join_done(
                    old(self)@,
                    final(self)@,
                    session,
                    room_id,
                    user_id,
                    username,
                    plan,
                ),
            },
    {
        proof {
            use_type_invariant(&*self);
        }
        let ghost pre = self@;
        let i = match self.position_of(room_id.as_str()) {
            Some(i) => i,
            None => {
                return Err("Room not found".to_string());
            },
        };
        proof {
            lemma_find_room(pre, room_id@);
        }
        let player = Player {
            user_id: user_id.clone(),
            username: username.clone(),
            symbol: Symbol::X,
            session,
            connected: true,
        };
        let mut rooms: Vec<Room> = Vec::new();
        std::mem::swap(&mut rooms, &mut self.rooms);
        let room = &mut rooms[i];
        let symbol = if room.players.is_empty() {
            Symbol::X
        } else {
            Symbol::O
        };
        match room.add_player(player) {
            Ok(()) => {},
            Err(e) => {
                return Err(e);
            },
        }
        let should_start_game = room.players.len() == 2;
        let game_state = room.game_state.clone();
        let reply = ServerEvent::RoomJoined {
            room_id: room_id,
            your_symbol: symbol,
            game_state: game_state.clone(),
            players: room.player_infos(),
        };
        let mut broadcasts: Vec<Delivery> = Vec::new();
        broadcasts.push(
            Delivery {
                targets: room.broadcast_targets(),
                event: ServerEvent::PlayerJoined { username, symbol },
            },
        );
        if should_start_game {
            broadcasts.push(
                Delivery {
                    targets: room.broadcast_targets(),
                    event: ServerEvent::GameStarted { game_state },
                },
            );
        }
        proof {
            let post = rooms@;
            add_player_keeps_users_distinct(pre[i as int], post[i as int], Player {
                user_id,
                username,
                symbol: Symbol::X,
                session,
                connected: true,
            });
            assert forall|j: int| 0 <= j < post.len() implies count_consistent(
                #[trigger] post[j].game_state,
            ) && distinct_users(post[j].players@) by {
                if j != i {
                    assert(post[j] == pre[j]);
                }
            }
        }
        self.rooms = rooms;
        Ok(JoinPlan { reply, broadcasts })
    }

    /// Plays the move of `user_id` at (`row`, `col`) in room `room_id`, and
    /// says what to tell whom.
    pub fn make_move(&mut self, room_id: String, user_id: String, row: usize, col: usize) -> (r:
        Result<Vec<Delivery>, String>)
        ensures
            table_wf(final(self)@),
            match play_error(old(self)@, room_id@, user_id@, row, col) {
                Some(msg) => r matches Err(e) && e@ == msg && final(self)@ == old(self)@,
                None => r matches Ok(ds) && play_done(
                    old(self)@,
                    final(self)@,
                    room_id,
                    user_id,
                    row,
                    col,
                    ds@,
                ),
            },
    {
        proof {
            use_type_invariant(&*self);
        }
        let ghost pre = self@;
        let i = match self.position_of(room_id.as_str()) {
            Some(i) => i,
            None => {
                return Err("Room not found".to_string());
            },
        };
        proof {
            lemma_find_room(pre, room_id@);
            lemma_find_player(pre[i as int].players@, user_id@);
            consistent_counter_bounded(pre[i as int].game_state);
        }
        let ghost uid = user_id;
        let (symbol, username) = match self.rooms[i].get_player(user_id.as_str()) {
            Some(player) => (player.symbol, player.username.clone()),
            None => {
                return Err("Not in this room".to_string());
            },
        };
        let mut rooms: Vec<Room> = Vec::new();
        std::mem::swap(&mut rooms, &mut self.rooms);
        let room = &mut rooms[i];
        let game_ended = match room.game_state.make_move(row, col, symbol, user_id) {
            Ok(ended) => ended,
            Err(e) => {
                proof {
                    assert(rooms@ =~= pre);
                }
                self.rooms = rooms;
                return Err(e);
            },
        };
        let game_state = room.game_state.clone();
        let winner_username = if game_ended {
            match &room.game_state.result {
                Some(GameResult::Win(winner_id)) => match room.get_player(winner_id.as_str()) {
                    Some(p) => Some(p.username.clone()),
                    None => None,
                },
                _ => None,
            }
        } else {
            None
        };
        let mut ds: Vec<Delivery> = Vec::new();
        ds.push(
            Delivery {
                targets: room.broadcast_targets(),
                event: ServerEvent::MoveMade {
                    username,
                    row,
                    col,
                    symbol,
                    game_state: game_state.clone(),
                },
            },
        );
        if game_ended {
            ds.push(
                Delivery {
                    targets: room.broadcast_targets(),
                    event: ServerEvent::GameOver { winner: winner_username, game_state },
                },
            );
        }
        proof {
            let post = rooms@;
            move_keeps_count_consistent(
                pre[i as int].game_state,
                post[i as int].game_state,
                row,
                col,
                symbol,
                uid,
                Ok(game_ended),
            );
            assert forall|j: int| 0 <= j < post.len() implies count_consistent(
                #[trigger] post[j].game_state,
            ) && distinct_users(post[j].players@) by {
                if j != i {
                    assert(post[j] == pre[j]);
                }
            }
        }
        self.rooms = rooms;
        Ok(ds)
    }

    /// Unseats `user_id` from room `room_id`, closes the room when it is left
    /// empty, and says what to tell whom.
    pub fn leave_room(&mut self, room_id: String, user_id: String) -> (r: Result<
        Vec<Delivery>,
        String,
    >)
        ensures
            table_wf(final(self)@),
            match leave_error(old(self)@, room_id@, user_id@) {
                Some(msg) => r matches Err(e) && e@ == msg && final(self)@ == old(self)@,
                None => r matches Ok(ds) && leave_done(
                    old(self)@,
                    final(self)@,
                    room_id,
                    user_id,
                    ds@,
                ),
            },
    {
        proof {
            use_type_invariant(&*self);
        }
        let ghost pre = self@;
        let i = match self.position_of(room_id.as_str()) {
            Some(i) => i,
            None => {
                return Err("Room not found".to_string());
            },
        };
        proof {
            lemma_find_room(pre, room_id@);
            lemma_find_player(pre[i as int].players@, user_id@);
        }
        let username = match self.rooms[i].get_player(user_id.as_str()) {
            Some(p) => p.username.clone(),
            None => {
                return Err("Player not in room".to_string());
            },
        };
        let mut rooms: Vec<Room> = Vec::new();
        std::mem::swap(&mut rooms, &mut self.rooms);
        let room = &mut rooms[i];
        let _ = room.remove_player(user_id.clone());
        proof {
            removed_player_is_gone(pre[i as int], rooms@[i as int], user_id@);
        }
        if rooms[i].players.len() == 0 {
            rooms.remove(i);
            proof {
                let post = rooms@;
                assert(post =~= pre.remove(i as int));
                assert forall|j: int| 0 <= j < post.len() implies count_consistent(
                    #[trigger] post[j].game_state,
                ) && distinct_users(post[j].players@) by {
                    if j < i {
                        assert(post[j] == pre[j]);
                    } else {
                        assert(post[j] == pre[j + 1]);
                    }
                }
                assert forall|a: int, b: int|
                    0 <= a < post.len() && 0 <= b < post.len() && a != b implies post[a].room_id@
                    != post[b].room_id@ by {
                    let a2 = if a < i {
                        a
                    } else {
                        a + 1
                    };
                    let b2 = if b < i {
                        b
                    } else {
                        b + 1
                    };
                    assert(post[a] == pre[a2]);
                    assert(post[b] == pre[b2]);
                }
            }
            self.rooms = rooms;
            return Ok(Vec::new());
        }
        let mut ds: Vec<Delivery> = Vec::new();
        ds.push(
            Delivery {
                targets: rooms[i].broadcast_targets(),
                event: ServerEvent::PlayerLeft { username },
            },
        );
        proof {
            let post = rooms@;
            assert forall|j: int| 0 <= j < post.len() implies count_consistent(
                #[trigger] post[j].game_state,
            ) && distinct_users(post[j].players@) by {
                if j != i {
                    assert(post[j] == pre[j]);
                }
            }
        }
        self.rooms = rooms;
        Ok(ds)
    }

    /// Sets the connection flag of `user_id` in room `room_id`.
    pub fn update_player_connected(
        &mut self,
        room_id: String,
        user_id: String,
        connected: bool,
    ) -> (r: Result<(), String>)
        ensures
            table_wf(final(self)@),
            match connect_error(old(self)@, room_id@, user_id@) {
                Some(msg) => r matches Err(e) && e@ == msg && final(self)@ == old(self)@,
                None => r is Ok && connect_done(
                    old(self)@,
                    final(self)@,
                    room_id@,
                    user_id@,
                    connected,
                ),
            },
    {
        proof {
            use_type_invariant(&*self);
        }
        let ghost pre = self@;
        let i = match self.position_of(room_id.as_str()) {
            Some(i) => i,
            None => {
                return Err("Room not found".to_string());
            },
        };
        proof {
            lemma_find_room(pre, room_id@);
            lemma_find_player(pre[i as int].players@, user_id@);
        }
        let mut rooms: Vec<Room> = Vec::new();
        std::mem::swap(&mut rooms, &mut self.rooms);
        let room = &mut rooms[i];
        match room.get_player_mut(user_id.as_str()) {
            Some(player) => {
                player.connected = connected;
            },
            None => {
                proof {
                    assert(rooms@ =~= pre);
                }
                self.rooms = rooms;
                return Err("Not in this room".to_string());
            },
        }
        proof {
            let post = rooms@;
            let ps = post[i as int].players@;
            assert forall|a: int, b: int|
                0 <= a < ps.len() && 0 <= b < ps.len() && a != b implies ps[a].user_id@
                != ps[b].user_id@ by {
                assert(ps[a].user_id == pre[i as int].players@[a].user_id);
                assert(ps[b].user_id == pre[i as int].players@[b].user_id);
            }
            assert forall|j: int| 0 <= j < post.len() implies count_consistent(
                #[trigger] post[j].game_state,
            ) && distinct_users(post[j].players@) by {
                if j != i {
                    assert(post[j] == pre[j]);
                }
            }
        }
        self.rooms = rooms;
        Ok(())
    }
}

} // verus!

verus! {

/// After a join, the user is seated in the room, connected, and reached
/// through the joining session.
pub proof fn joined_user_is_seated(
    pre: Seq<Room>,
    post: Seq<Room>,
    session: SessionId,
    room_id: String,
    user_id: String,
    username: String,
    plan: JoinPlan,
)
    requires
        join_error(pre, room_id@) is None,
        join_done(pre, post, session, room_id, user_id, username, plan),
    ensures
        find_room(post, room_id@) == find_room(pre, room_id@),
        ({
            let room = post[find_room(pre, room_id@)->0];
            find_player(room.players@, user_id@) matches Some(k) && room.players@[k].connected
                && room.players@[k].session == session
        }),
{
    let i = find_room(pre, room_id@)->0;
    lemma_find_room_from(pre, room_id@, 0);
    lemma_find_room_prefix(pre, post, room_id@, i);
    crate::room::added_player_is_seated(
        pre[i],
        post[i],
        Player { user_id, username, symbol: Symbol::X, session, connected: true },
    );
}

/// Rooms that keep their ids keep their positions under `find_room`.
proof fn lemma_find_room_prefix(pre: Seq<Room>, post: Seq<Room>, id: Seq<char>, i: int)
    requires
        find_room(pre, id) == Some(i),
        others_unchanged(pre, post, i),
        post[i].room_id == pre[i].room_id,
    ensures
        find_room(post, id) == Some(i),
{
    lemma_find_room_from(pre, id, 0);
    lemma_find_room_from(post, id, 0);
    assert(forall|j: int| 0 <= j < i ==> post[j] == pre[j]);
    lemma_find_first(post, id, i, 0);
}

proof fn lemma_find_first(rs: Seq<Room>, id: Seq<char>, i: int, from: nat)
    requires
        from <= i < rs.len(),
        rs[i].room_id@ == id,
        forall|j: int| from <= j < i ==> rs[j].room_id@ != id,
    ensures
        find_room_from(rs, id, from) == Some(i),
    decreases i - from,
{
    if from < i {
        lemma_find_first(rs, id, i, from + 1);
    }
}

/// After a leave, the user is no longer seated in the room, which is closed
/// when nobody is left in it.
pub proof fn left_user_is_gone(
    pre: Seq<Room>,
    post: Seq<Room>,
    room_id: String,
    user_id: String,
    ds: Seq<Delivery>,
)
    requires
        table_wf(pre),
        leave_error(pre, room_id@, user_id@) is None,
        leave_done(pre, post, room_id, user_id, ds),
    ensures
        match find_room(post, room_id@) {
            Some(i) => find_player(post[i].players@, user_id@) is None && post[i].players@.len()
                > 0,
            None => post.len() + 1 == pre.len(),
        },
{
    let i = find_room(pre, room_id@)->0;
    lemma_find_room(pre, room_id@);
    if without_user(pre[i].players@, user_id@).len() == 0 {
        let rest = pre.remove(i);
        assert forall|a: int, b: int|
            0 <= a < rest.len() && 0 <= b < rest.len() && a != b implies rest[a].room_id@
            != rest[b].room_id@ by {
            let a2 = if a < i {
                a
            } else {
                a + 1
            };
            let b2 = if b < i {
                b
            } else {
                b + 1
            };
            assert(rest[a] == pre[a2]);
            assert(rest[b] == pre[b2]);
        }
        lemma_find_room(post, room_id@);
        assert forall|j: int| 0 <= j < post.len() implies post[j].room_id@ != room_id@ by {
            let j2 = if j < i {
                j
            } else {
                j + 1
            };
            assert(post[j] == pre[j2]);
        }
    } else {
        lemma_find_room_prefix(pre, post, room_id@, i);
        removed_player_is_gone(pre[i], post[i], user_id@);
    }
}

/// When a move ends the game, the room hears who won: the mover's username on
/// a win, nobody on a draw.
pub proof fn finished_game_names_the_mover(
    pre: Seq<Room>,
    post: Seq<Room>,
    room_id: String,
    user_id: String,
    row: usize,
    col: usize,
    ds: Seq<Delivery>,
)
    requires
        play_error(pre, room_id@, user_id@, row, col) is None,
        play_done(pre, post, room_id, user_id, row, col, ds),
        post[find_room(pre, room_id@)->0].game_state.status == GameStatus::Completed,
    ensures
        ({
            let i = find_room(pre, room_id@)->0;
            let mover = pre[i].players@[find_player(pre[i].players@, user_id@)->0];
            ds[1].event matches ServerEvent::GameOver { winner, .. } && winner == if post[i].game_state.result is Some && post[i].game_state.result->0 is Win {
                Some(mover.username)
            } else {
                None::<String>
            }
        }),
{
    let i = find_room(pre, room_id@)->0;
    lemma_find_player(pre[i].players@, user_id@);
    lemma_find_player(post[i].players@, user_id@);
    assert(post[i].players@ == pre[i].players@);
}

/// Setting a player's connection flag sets exactly that flag: the user is
/// still seated, and the first seat of that user now has the flag.
pub proof fn connection_flag_is_set(
    pre: Seq<Room>,
    post: Seq<Room>,
    room_id: Seq<char>,
    user_id: Seq<char>,
    connected: bool,
)
    requires
        connect_error(pre, room_id, user_id) is None,
        connect_done(pre, post, room_id, user_id, connected),
    ensures
        ({
            let i = find_room(pre, room_id)->0;
            find_player(post[i].players@, user_id) == find_player(pre[i].players@, user_id)
                && post[i].players@[find_player(pre[i].players@, user_id)->0].connected
                == connected
        }),
{
    let i = find_room(pre, room_id)->0;
    let k = find_player(pre[i].players@, user_id)->0;
    lemma_find_room_from(pre, room_id, 0);
    lemma_find_player(pre[i].players@, user_id);
    lemma_find_player(post[i].players@, user_id);
    match find_player(post[i].players@, user_id) {
        Some(k2) => {
            if k2 < k {
                assert(post[i].players@[k2].user_id == pre[i].players@[k2].user_id);
            }
            if k2 > k {
                assert(post[i].players@[k].user_id == pre[i].players@[k].user_id);
            }
        },
        None => {
            assert(post[i].players@[k].user_id == pre[i].players@[k].user_id);
        },
    }
}

/// A legal move is announced under the mover's own seat: the room with that
/// id holds a seat of `user_id`, the first such, and the announcement carries
/// that seat's username and mark and the move's position.
pub proof fn move_is_announced_under_the_movers_name(
    pre: Seq<Room>,
    post: Seq<Room>,
    room_id: String,
    user_id: String,
    row: usize,
    col: usize,
    ds: Seq<Delivery>,
)
    requires
        play_error(pre, room_id@, user_id@, row, col) is None,
        play_done(pre, post, room_id, user_id, row, col, ds),
    ensures
        exists|i: int, k: int|
            #![trigger pre[i].players@[k]]
            0 <= i < pre.len() && pre[i].room_id@ == room_id@ && 0 <= k < pre[i].players@.len()
                && pre[i].players@[k].user_id@ == user_id@ && (forall|j: int|
                0 <= j < k ==> pre[i].players@[j].user_id@ != user_id@) && (ds[0].event matches ServerEvent::MoveMade { username, row: r, col: c, symbol, .. }
                && username == pre[i].players@[k].username && symbol == pre[i].players@[k].symbol
                && r == row && c == col),
{
    let i = find_room(pre, room_id@)->0;
    lemma_find_room_from(pre, room_id@, 0);
    lemma_find_player(pre[i].players@, user_id@);
    let k = find_player(pre[i].players@, user_id@)->0;
    assert(pre[i].players@[k].user_id@ == user_id@);
}

/// Joining a room in which the user already holds a seat leaves that room's
/// game exactly as it was.
pub proof fn rejoin_leaves_game_alone(
    pre: Seq<Room>,
    post: Seq<Room>,
    session: SessionId,
    room_id: String,
    user_id: String,
    username: String,
    plan: JoinPlan,
)
    requires
        join_error(pre, room_id@) is None,
        join_done(pre, post, session, room_id, user_id, username, plan),
        exists|j: int|
            0 <= j < pre[find_room(pre, room_id@)->0].players@.len()
                && #[trigger] pre[find_room(pre, room_id@)->0].players@[j].user_id@ == user_id@,
    ensures
        post[find_room(pre, room_id@)->0].game_state == pre[find_room(pre, room_id@)->0].game_state,
{
    let i = find_room(pre, room_id@)->0;
    crate::room::reconnect_leaves_game_alone(
        pre[i],
        post[i],
        Player { user_id, username, symbol: Symbol::X, session, connected: true },
    );
}

} // verus!
