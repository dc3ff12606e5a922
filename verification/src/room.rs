use vstd::prelude::*;

use crate::events::PlayerInfo;
use crate::game::{GameResult, GameState, GameStatus, Symbol};
use crate::text::same_text;

verus! {

/// Names the websocket session through which a player is reached; the server
/// keeps the sessions themselves and looks them up by this number.
pub type SessionId = u64;

/// A seated player.
#[derive(Debug)]
pub struct Player {
    pub user_id: String,
    pub username: String,
    pub symbol: Symbol,
    /// The session that messages for this player go to.
    pub session: SessionId,
    pub connected: bool,
}

impl Clone for Player {
    fn clone(&self) -> (r: Self)
        ensures
            r == *self,
    {
        Player {
            user_id: self.user_id.clone(),
            username: self.username.clone(),
            symbol: self.symbol,
            session: self.session,
            connected: self.connected,
        }
    }
}

/// A room: its players in the order they sat down, its spectators and its game.
pub struct Room {
    pub room_id: String,
    pub room_name: String,
    pub players: Vec<Player>,
    /// User ids of the spectators.
    pub spectators: Vec<String>,
    pub game_state: GameState,
    /// When the room was opened, in milliseconds since the Unix epoch (UTC).
    pub created_at: i64,
}

/// The index of the first player at or after `i` whose user id is `uid`.
pub open spec fn find_player_from(ps: Seq<Player>, uid: Seq<char>, i: nat) -> Option<int>
    decreases ps.len() - i,
{
    if i >= ps.len() {
        None
    } else if ps[i as int].user_id@ == uid {
        Some(i as int)
    } else {
        find_player_from(ps, uid, i + 1)
    }
}

/// The index of the first player whose user id is `uid`.
pub open spec fn find_player(ps: Seq<Player>, uid: Seq<char>) -> Option<int> {
    find_player_from(ps, uid, 0)
}

/// The players whose user id is not `uid`, in their order.
pub open spec fn without_user(ps: Seq<Player>, uid: Seq<char>) -> Seq<Player>
    decreases ps.len(),
{
    if ps.len() == 0 {
        ps
    } else {
        let rest = without_user(ps.drop_last(), uid);
        if ps.last().user_id@ != uid {
            rest.push(ps.last())
        } else {
            rest
        }
    }
}

/// The sessions of the connected players, in seat order.
pub open spec fn connected_sessions(ps: Seq<Player>) -> Seq<SessionId>
    decreases ps.len(),
{
    if ps.len() == 0 {
        Seq::empty()
    } else {
        let rest = connected_sessions(ps.drop_last());
        if ps.last().connected {
            rest.push(ps.last().session)
        } else {
            rest
        }
    }
}

/// How the players appear to clients: username and mark, in seat order.
pub open spec fn player_infos(ps: Seq<Player>) -> Seq<PlayerInfo> {
    ps.map_values(|p: Player| PlayerInfo { username: p.username, symbol: p.symbol })
}

/// No two players share a user id.
pub open spec fn distinct_users(ps: Seq<Player>) -> bool {
    forall|i: int, j: int|
        0 <= i < ps.len() && 0 <= j < ps.len() && i != j ==> ps[i].user_id@ != ps[j].user_id@
}

/// The mark a newcomer gets: X for the first seat, O for every later one.
pub open spec fn seat_symbol(ps: Seq<Player>) -> Symbol {
    if ps.len() == 0 {
        Symbol::X
    } else {
        Symbol::O
    }
}

/// `post` is `pre` with `player` added: a player already seated under the same
/// user id is marked connected and takes the new session; anyone else sits down
/// at the end with the seat's mark, and the game starts when this makes two
/// players.
pub open spec fn player_added(pre: Room, post: Room, player: Player) -> bool {
    &&& post.room_id == pre.room_id
    &&& post.room_name == pre.room_name
    &&& post.spectators == pre.spectators
    &&& post.created_at == pre.created_at
    &&& match find_player(pre.players@, player.user_id@) {
        Some(i) => {
            &&& post.players@ == pre.players@.update(
                i,
                Player { connected: true, session: player.session, ..pre.players@[i] },
            )
            &&& post.game_state == pre.game_state
        },
        None => {
            &&& post.players@ == pre.players@.push(
                Player { symbol: seat_symbol(pre.players@), ..player },
            )
            &&& post.game_state == if post.players@.len() == 2 {
                GameState { status: GameStatus::InProgress, ..pre.game_state }
            } else {
                pre.game_state
            }
        },
    }
}

/// `post` is `pre` without the players of user id `uid`; a room left empty has
/// its game completed as a draw.
pub open spec fn player_removed(pre: Room, post: Room, uid: Seq<char>) -> bool {
    &&& post.room_id == pre.room_id
    &&& post.room_name == pre.room_name
    &&& post.spectators == pre.spectators
    &&& post.created_at == pre.created_at
    &&& post.players@ == without_user(pre.players@, uid)
    &&& post.game_state == if post.players@.len() == 0 {
        GameState {
            status: GameStatus::Completed,
            result: Some(GameResult::Draw),
            ..pre.game_state
        }
    } else {
        pre.game_state
    }
}

pub proof fn lemma_find_player_from(ps: Seq<Player>, uid: Seq<char>, i: nat)
    ensures
        find_player_from(ps, uid, i) matches Some(k) ==> i <= k < ps.len() && ps[k].user_id@
            == uid && forall|j: int| i <= j < k ==> ps[j].user_id@ != uid,
        find_player_from(ps, uid, i) is None ==> forall|j: int|
            i <= j < ps.len() ==> ps[j].user_id@ != uid,
    decreases ps.len() - i,
{
    if i < ps.len() && ps[i as int].user_id@ != uid {
        lemma_find_player_from(ps, uid, i + 1);
    }
}

/// Where `find_player` points, and that it finds nothing only when no player has
/// that user id.
pub proof fn lemma_find_player(ps: Seq<Player>, uid: Seq<char>)
    ensures
        find_player(ps, uid) matches Some(k) ==> 0 <= k < ps.len() && ps[k].user_id@ == uid
            && forall|j: int| 0 <= j < k ==> ps[j].user_id@ != uid,
        find_player(ps, uid) is None <==> forall|j: int|
            0 <= j < ps.len() ==> ps[j].user_id@ != uid,
{
    lemma_find_player_from(ps, uid, 0);
}

/// The players kept by `without_user` are those whose user id differs from
/// `uid`, and none of them has that id.
pub proof fn lemma_without_user(ps: Seq<Player>, uid: Seq<char>)
    ensures
        without_user(ps, uid).len() <= ps.len(),
        forall|j: int|
            0 <= j < without_user(ps, uid).len() ==> #[trigger] without_user(ps, uid)[j].user_id@
                != uid,
        forall|j: int|
            0 <= j < without_user(ps, uid).len() ==> ps.contains(#[trigger] without_user(ps, uid)[j]),
    decreases ps.len(),
{
    if ps.len() > 0 {
        lemma_without_user(ps.drop_last(), uid);
        let rest = without_user(ps.drop_last(), uid);
        assert forall|j: int| 0 <= j < without_user(ps, uid).len() implies ps.contains(
            #[trigger] without_user(ps, uid)[j],
        ) by {
            if j < rest.len() {
                let k = choose|k: int| 0 <= k < ps.drop_last().len() && ps.drop_last()[k] == rest[j];
                assert(ps[k] == rest[j]);
            } else {
                assert(ps[ps.len() - 1] == ps.last());
            }
        }
    }
}

/// A room just opened under `room_id` and `room_name` at time `created_at`:
/// nobody in it and a fresh game.
pub open spec fn fresh_room(r: Room, room_id: String, room_name: String, created_at: i64) -> bool {
    &&& r.room_id == room_id
    &&& r.room_name == room_name
    &&& r.players@.len() == 0
    &&& r.spectators@.len() == 0
    &&& crate::game::is_initial(r.game_state)
    &&& r.created_at == created_at
}

impl Room {
    /// A room opened now, by the clock.
    pub fn new(room_id: String, room_name: String) -> (room: Self)
        ensures
            fresh_room(room, room_id, room_name, room.created_at),
    {
        Room::opened_at(room_id, room_name, crate::clock::now_millis())
    }

    /// A room opened at `created_at` (milliseconds since the Unix epoch).
    pub fn opened_at(room_id: String, room_name: String, created_at: i64) -> (room: Self)
        ensures
            fresh_room(room, room_id, room_name, created_at),
    {
        Room {
            room_id,
            room_name,
            players: Vec::new(),
            spectators: Vec::new(),
            game_state: GameState::new(),
            created_at,
        }
    }

    /// The index of the first player with user id `user_id`.
    fn position_of(&self, user_id: &str) -> (r: Option<usize>)
        ensures
            r matches Some(i) ==> i < self.players@.len() && find_player(self.players@, user_id@)
                == Some(i as int),
            r is None ==> find_player(self.players@, user_id@) is None,
    {
        let mut i: usize = 0;
        while i < self.players.len()
            invariant
                i <= self.players@.len(),
                find_player(self.players@, user_id@) == find_player_from(
                    self.players@,
                    user_id@,
                    i as nat,
                ),
            decreases self.players@.len() - i,
        {
            if same_text(self.players[i].user_id.as_str(), user_id) {
                return Some(i);
            }
            i = i + 1;
        }
        None
    }

    /// Seats `player`, or reconnects them when their user id is already seated.
    pub fn add_player(&mut self, player: Player) -> (r: Result<(), String>)
        ensures
            r is Ok,
            player_added(*old(self), *final(self), player),
    {
        if self.position_of(player.user_id.as_str()).is_some() {
            let existing_player = match self.get_player_mut(player.user_id.as_str()) {
                Some(p) => p,
                None => {
                    return Err("Player not found".to_string());
                },
            };
            existing_player.connected = true;
            existing_player.session = player.session;
            return Ok(());
        }
        let symbol = if self.players.is_empty() {
            Symbol::X
        } else {
            Symbol::O
        };
        let mut player = player;
        player.symbol = symbol;
        self.players.push(player);
        if self.players.len() == 2 {
            self.game_state.status = GameStatus::InProgress;
        }
        Ok(())
    }

    /// Unseats every player with user id `user_id`; an emptied room's game ends
    /// as a draw.
    pub fn remove_player(&mut self, user_id: String) -> (r: Result<(), String>)
        ensures
            old(self).players@.len() == 0 ==> (r matches Err(e) && e@ == "Room is already empty"@
                && *final(self) == *old(self)),
            old(self).players@.len() > 0 ==> (r is Ok && player_removed(
                *old(self),
                *final(self),
                user_id@,
            )),
    {
        if self.players.len() <= 0 {
            return Err("Room is already empty".to_string());
        }
        let ghost ps = self.players@;
        let mut kept: Vec<Player> = Vec::new();
        let mut i: usize = 0;
        while i < self.players.len()
            invariant
                ps == self.players@,
                i <= ps.len(),
                kept@ == without_user(ps.take(i as int), user_id@),
            decreases ps.len() - i,
        {
            assert(ps.take(i + 1).drop_last() =~= ps.take(i as int));
            if !same_text(self.players[i].user_id.as_str(), user_id.as_str()) {
                kept.push(self.players[i].clone());
            }
            i = i + 1;
        }
        assert(ps.take(ps.len() as int) =~= ps);
        self.players = kept;
        if self.players.is_empty() {
            self.game_state.status = GameStatus::Completed;
            self.game_state.result = Some(GameResult::Draw);
            return Ok(());
        }
        Ok(())
    }

    /// The sessions that a message to the whole room goes to: those of the
    /// connected players, in seat order.
    pub fn broadcast_targets(&self) -> (r: Vec<SessionId>)
        ensures
            r@ == connected_sessions(self.players@),
    {
        let ghost ps = self.players@;
        let mut targets: Vec<SessionId> = Vec::new();
        let mut i: usize = 0;
        while i < self.players.len()
            invariant
                ps == self.players@,
                i <= ps.len(),
                targets@ == connected_sessions(ps.take(i as int)),
            decreases ps.len() - i,
        {
            assert(ps.take(i + 1).drop_last() =~= ps.take(i as int));
            if self.players[i].connected {
                targets.push(self.players[i].session);
            }
            i = i + 1;
        }
        assert(ps.take(ps.len() as int) =~= ps);
        targets
    }

    /// The seated players as clients see them.
    pub fn player_infos(&self) -> (r: Vec<PlayerInfo>)
        ensures
            r@ == player_infos(self.players@),
    {
        let mut infos: Vec<PlayerInfo> = Vec::new();
        let mut i: usize = 0;
        while i < self.players.len()
            invariant
                i <= self.players@.len(),
                infos@.len() == i,
                forall|j: int|
                    0 <= j < i ==> #[trigger] infos@[j] == (PlayerInfo {
                        username: self.players@[j].username,
                        symbol: self.players@[j].symbol,
                    }),
            decreases self.players@.len() - i,
        {
            infos.push(
                PlayerInfo {
                    username: self.players[i].username.clone(),
                    symbol: self.players[i].symbol,
                },
            );
            i = i + 1;
        }
        assert(infos@ =~= player_infos(self.players@));
        infos
    }

    /// The first player with user id `user_id`.
    pub fn get_player(&self, user_id: &str) -> (r: Option<&Player>)
        ensures
            match find_player(self.players@, user_id@) {
                Some(i) => r matches Some(p) && *p == self.players@[i],
                None => r is None,
            },
    {
        match self.position_of(user_id) {
            Some(i) => Some(&self.players[i]),
            None => None,
        }
    }

    /// The first player with user id `user_id`, to be changed in place.
    pub fn get_player_mut(&mut self, user_id: &str) -> (r: Option<&mut Player>)
        ensures
            match find_player(old(self).players@, user_id@) {
                Some(i) => r matches Some(p) && *p == old(self).players@[i] && *final(self) == Room {
                    players: final(self).players,
                    ..*old(self)
                } && final(self).players@ == old(self).players@.update(i, *final(p)),
                None => r is None && *final(self) == *old(self),
            },
    {
        match self.position_of(user_id) {
            Some(i) => Some(&mut self.players[i]),
            None => None,
        }
    }
}

} // verus!

verus! {

/// Seating a player never gives two seats the same user id.
pub proof fn add_player_keeps_users_distinct(pre: Room, post: Room, player: Player)
    requires
        distinct_users(pre.players@),
        player_added(pre, post, player),
    ensures
        distinct_users(post.players@),
{
    lemma_find_player(pre.players@, player.user_id@);
    let ps = post.players@;
    assert forall|i: int, j: int|
        0 <= i < ps.len() && 0 <= j < ps.len() && i != j implies ps[i].user_id@
        != ps[j].user_id@ by {
        if find_player(pre.players@, player.user_id@) is None {
            if i < pre.players@.len() && j < pre.players@.len() {
            } else if i < pre.players@.len() {
                assert(pre.players@[i].user_id@ != player.user_id@);
            } else {
                assert(pre.players@[j].user_id@ != player.user_id@);
            }
        }
    }
}

/// After seating, the player's user id is seated and reached through the new
/// session; a player who arrives connected is connected.
pub proof fn added_player_is_seated(pre: Room, post: Room, player: Player)
    requires
        player_added(pre, post, player),
    ensures
        find_player(post.players@, player.user_id@) matches Some(k) && post.players@[k].session
            == player.session && (player.connected ==> post.players@[k].connected),
{
    lemma_find_player(pre.players@, player.user_id@);
    lemma_find_player(post.players@, player.user_id@);
    match find_player(pre.players@, player.user_id@) {
        Some(i) => {
            assert(post.players@[i].user_id@ == player.user_id@);
            match find_player(post.players@, player.user_id@) {
                Some(k) => {
                    if k < i {
                        assert(post.players@[k] == pre.players@[k]);
                    }
                    assert(k == i);
                },
                None => {},
            }
        },
        None => {
            let n = pre.players@.len() as int;
            assert(post.players@[n].user_id@ == player.user_id@);
            match find_player(post.players@, player.user_id@) {
                Some(k) => {
                    if k < n {
                        assert(post.players@[k] == pre.players@[k]);
                    }
                },
                None => {},
            }
        },
    }
}

/// Seating and unseating leave the board and the move counter as they were.
pub proof fn seating_leaves_board_alone(pre: Room, post: Room, player: Player, uid: Seq<char>)
    requires
        player_added(pre, post, player) || player_removed(pre, post, uid),
    ensures
        post.game_state.board == pre.game_state.board,
        post.game_state.move_count == pre.game_state.move_count,
{
}

/// After unseating user `uid`, no seat has that user id, and the remaining
/// seats still have distinct user ids.
pub proof fn removed_player_is_gone(pre: Room, post: Room, uid: Seq<char>)
    requires
        player_removed(pre, post, uid),
    ensures
        find_player(post.players@, uid) is None,
        distinct_users(pre.players@) ==> distinct_users(post.players@),
{
    lemma_without_user(pre.players@, uid);
    lemma_find_player(post.players@, uid);
    if distinct_users(pre.players@) {
        lemma_without_user_distinct(pre.players@, uid);
    }
}

proof fn lemma_without_user_distinct(ps: Seq<Player>, uid: Seq<char>)
    requires
        distinct_users(ps),
    ensures
        distinct_users(without_user(ps, uid)),
    decreases ps.len(),
{
    if ps.len() > 0 {
        let init = ps.drop_last();
        assert(distinct_users(init));
        lemma_without_user_distinct(init, uid);
        lemma_without_user(init, uid);
        let rest = without_user(init, uid);
        if ps.last().user_id@ != uid {
            let out = rest.push(ps.last());
            assert forall|i: int, j: int|
                0 <= i < out.len() && 0 <= j < out.len() && i != j implies out[i].user_id@
                != out[j].user_id@ by {
                if i < rest.len() && j < rest.len() {
                } else if i < rest.len() {
                    assert(init.contains(rest[i]));
                    let k = choose|k: int| 0 <= k < init.len() && init[k] == rest[i];
                    assert(ps[k] == init[k]);
                    assert(ps[ps.len() - 1] == ps.last());
                } else {
                    assert(init.contains(rest[j]));
                    let k = choose|k: int| 0 <= k < init.len() && init[k] == rest[j];
                    assert(ps[k] == init[k]);
                    assert(ps[ps.len() - 1] == ps.last());
                }
            }
        }
    }
}

/// A newcomer takes the next seat: X when the room was empty, O otherwise; a
/// user already seated keeps their seat and mark, so the seat count is
/// unchanged.
pub proof fn seats_are_marked_in_order(pre: Room, post: Room, player: Player)
    requires
        player_added(pre, post, player),
    ensures
        find_player(pre.players@, player.user_id@) is None ==> post.players@.len()
            == pre.players@.len() + 1 && post.players@.last().symbol == (if pre.players@.len() == 0 {
            Symbol::X
        } else {
            Symbol::O
        }),
        find_player(pre.players@, player.user_id@) matches Some(i) ==> post.players@.len()
            == pre.players@.len() && post.players@[i].symbol == pre.players@[i].symbol,
{
    lemma_find_player(pre.players@, player.user_id@);
}

/// The game starts when a second user sits down in a room with one player.
pub proof fn second_player_starts_game(pre: Room, post: Room, player: Player)
    requires
        player_added(pre, post, player),
        pre.players@.len() == 1,
        find_player(pre.players@, player.user_id@) is None,
    ensures
        post.game_state.status == GameStatus::InProgress,
{
}

/// Unseating user `uid` keeps exactly the players whose user id differs, in
/// their order: the seat list filtered by that test.
pub proof fn unseating_keeps_everyone_else(ps: Seq<Player>, uid: Seq<char>)
    ensures
        without_user(ps, uid) == ps.filter(|p: Player| p.user_id@ != uid),
        forall|j: int|
            0 <= j < ps.len() && ps[j].user_id@ != uid ==> without_user(ps, uid).contains(
                #[trigger] ps[j],
            ),
    decreases ps.len(),
{
    reveal(Seq::filter);
    let pred = |p: Player| p.user_id@ != uid;
    if ps.len() > 0 {
        unseating_keeps_everyone_else(ps.drop_last(), uid);
    }
    assert(without_user(ps, uid) =~= ps.filter(pred));
    assert forall|j: int| 0 <= j < ps.len() && ps[j].user_id@ != uid implies without_user(
        ps,
        uid,
    ).contains(#[trigger] ps[j]) by {
        ps.lemma_filter_contains(pred, j);
    }
}

/// After a room unseats user `uid`, its players are exactly the former
/// players of other user ids, in their order.
pub proof fn unseated_room_keeps_everyone_else(pre: Room, post: Room, uid: Seq<char>)
    requires
        player_removed(pre, post, uid),
    ensures
        post.players@ == pre.players@.filter(|p: Player| p.user_id@ != uid),
{
    unseating_keeps_everyone_else(pre.players@, uid);
}

/// Seating a user who already holds a seat only reconnects that seat: the
/// game is exactly as it was, and every seat keeps its user and mark.
pub proof fn reconnect_leaves_game_alone(pre: Room, post: Room, player: Player)
    requires
        player_added(pre, post, player),
        exists|j: int|
            0 <= j < pre.players@.len() && #[trigger] pre.players@[j].user_id@ == player.user_id@,
    ensures
        post.game_state == pre.game_state,
        post.players@.len() == pre.players@.len(),
        forall|j: int|
            0 <= j < pre.players@.len() ==> #[trigger] post.players@[j].user_id
                == pre.players@[j].user_id && post.players@[j].symbol == pre.players@[j].symbol,
{
    lemma_find_player(pre.players@, player.user_id@);
}

/// A message to the whole room goes to the sessions of exactly the connected
/// players, in seat order, and to nobody else.
pub proof fn room_messages_reach_connected_players(ps: Seq<Player>)
    ensures
        connected_sessions(ps) == ps.filter(|p: Player| p.connected).map_values(
            |p: Player| p.session,
        ),
    decreases ps.len(),
{
    reveal(Seq::filter);
    if ps.len() > 0 {
        room_messages_reach_connected_players(ps.drop_last());
    }
    assert(connected_sessions(ps) =~= ps.filter(|p: Player| p.connected).map_values(
        |p: Player| p.session,
    ));
}

} // verus!
