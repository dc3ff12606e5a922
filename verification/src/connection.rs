use vstd::prelude::*;

use crate::events::{ClientEvent, ServerEvent};
use crate::lobby::{
    connect_done, connect_error, join_done, join_error, leave_done, leave_error, play_done,
    play_error, sole_error, Delivery, JoinPlan, RoomTable,
};
use crate::room::SessionId;

verus! {

/// What one websocket connection remembers: its session, the room it last
/// joined or left, and the user it speaks for once it asked to join.
#[derive(Debug)]
pub struct Connection {
    pub session: SessionId,
    pub current_room_id: Option<String>,
    pub user_id: Option<String>,
}

/// What the server does in answer to a client message.
#[derive(Debug)]
pub enum Reaction {
    /// Send these messages, in order.
    Send(Vec<Delivery>),
    /// A join took effect: send `plan.reply` to this connection's session and
    /// hand the outcome of that send, with `plan.broadcasts`, to
    /// `Connection::finish_join`.
    Join { room_id: String, plan: JoinPlan },
}

/// An error delivery for one session.
fn error_to(session: SessionId, message: String) -> (ds: Vec<Delivery>)
    ensures
        sole_error(ds@, session, message@),
{
    let mut targets: Vec<SessionId> = Vec::new();
    targets.push(session);
    let mut ds: Vec<Delivery> = Vec::new();
    ds.push(Delivery { targets, event: ServerEvent::Error { message } });
    ds
}

impl Connection {
    pub fn new(session: SessionId) -> (c: Self)
        ensures
            c.session == session,
            c.current_room_id is None,
            c.user_id is None,
    {
        Connection { session, current_room_id: None, user_id: None }
    }

    /// Handles one text message from the client, already parsed: `Err` carries
    /// the parser's complaint.
    ///
    /// A join records the user the connection speaks for, whatever comes of it.
    /// A move is ignored until the connection speaks for a user. A leave needs a
    /// user too, and on success makes the left room the current one.
    pub fn on_text(&mut self, table: &mut RoomTable, parsed: Result<ClientEvent, String>) -> (r:
        Reaction)
        ensures
            final(self).session == old(self).session,
            match parsed {
                Err(e) => *final(self) == *old(self) && final(table)@ == old(table)@ && (r matches Reaction::Send(ds) && sole_error(ds@, old(self).session, "Invalid message: "@ + e@)),
                Ok(ClientEvent::JoinRoom { room_id, user_id, username }) => {
                    &&& final(self).user_id == Some(user_id)
                    &&& final(self).current_room_id == old(self).current_room_id
                    &&& match join_error(old(table)@, room_id@) {
                        Some(msg) => final(table)@ == old(table)@ && (r matches Reaction::Send(ds) && sole_error(ds@, old(self).session, msg)),
                        None => r matches Reaction::Join { room_id: rid, plan } && rid == room_id && join_done(old(table)@, final(table)@, old(self).session, room_id, user_id, username, plan),
                    }
                },
                Ok(ClientEvent::MakeMove { room_id, row, col }) => {
                    &&& *final(self) == *old(self)
                    &&& match old(self).user_id {
                        None => final(table)@ == old(table)@ && (r matches Reaction::Send(ds) && ds@.len() == 0),
                        Some(uid) => match play_error(old(table)@, room_id@, uid@, row, col) {
                            Some(msg) => final(table)@ == old(table)@ && (r matches Reaction::Send(ds) && sole_error(ds@, old(self).session, msg)),
                            None => r matches Reaction::Send(ds) && play_done(old(table)@, final(table)@, room_id, uid, row, col, ds@),
                        },
                    }
                },
                Ok(ClientEvent::LeaveRoom { room_id }) => {
                    &&& final(self).user_id == old(self).user_id
                    &&& match old(self).user_id {
                        None => *final(self) == *old(self) && final(table)@ == old(table)@ && (r matches Reaction::Send(ds) && sole_error(ds@, old(self).session, "Not logged in"@)),
                        Some(uid) => match leave_error(old(table)@, room_id@, uid@) {
                            Some(msg) => *final(self) == *old(self) && final(table)@ == old(table)@ && (r matches Reaction::Send(ds) && sole_error(ds@, old(self).session, msg)),
                            None => final(self).current_room_id == Some(room_id) && (r matches Reaction::Send(ds) && leave_done(old(table)@, final(table)@, room_id, uid, ds@)),
                        },
                    }
                },
            },
    {
        match parsed {
            Ok(ClientEvent::JoinRoom { room_id, user_id: uid, username }) => {
                self.user_id = Some(uid.clone());
                match table.join_room(self.session, room_id.clone(), uid, username) {
                    Ok(plan) => Reaction::Join { room_id, plan },
                    Err(e) => Reaction::Send(error_to(self.session, e)),
                }
            },
            Ok(ClientEvent::MakeMove { room_id, row, col }) => {
                match &self.user_id {
                    Some(uid) => match table.make_move(room_id, uid.clone(), row, col) {
                        Ok(ds) => Reaction::Send(ds),
                        Err(e) => Reaction::Send(error_to(self.session, e)),
                    },
                    None => Reaction::Send(Vec::new()),
                }
            },
            Ok(ClientEvent::LeaveRoom { room_id }) => {
                match &self.user_id {
                    Some(uid) => match table.leave_room(room_id.clone(), uid.clone()) {
                        Ok(ds) => {
                            self.current_room_id = Some(room_id);
                            Reaction::Send(ds)
                        },
                        Err(e) => Reaction::Send(error_to(self.session, e)),
                    },
                    None => Reaction::Send(error_to(self.session, "Not logged in".to_string())),
                }
            },
            Err(e) => {
                let message = "Invalid message: ".to_string().concat(e.as_str());
                Reaction::Send(error_to(self.session, message))
            },
        }
    }

    /// Finishes a join of room `room_id` once the reply to the joiner was sent
    /// (`sent` is the outcome of that send): on success the room becomes the
    /// current one and the join's `broadcasts` go out; on failure the joiner is
    /// told why.
    pub fn finish_join(
        &mut self,
        room_id: String,
        broadcasts: Vec<Delivery>,
        sent: Result<(), String>,
    ) -> (ds: Vec<Delivery>)
        ensures
            final(self).session == old(self).session,
            final(self).user_id == old(self).user_id,
            match sent {
                Ok(()) => final(self).current_room_id == Some(room_id) && ds == broadcasts,
                Err(e) => *final(self) == *old(self) && sole_error(ds@, old(self).session, e@),
            },
    {
        match sent {
            Ok(()) => {
                self.current_room_id = Some(room_id);
                broadcasts
            },
            Err(e) => error_to(self.session, e),
        }
    }

    /// When the connection closes, the user it speaks for is marked
    /// disconnected in its current room, if it has both.
    pub fn on_close(&self, table: &mut RoomTable)
        ensures
            match (self.current_room_id, self.user_id) {
                (Some(room_id), Some(uid)) => match connect_error(old(table)@, room_id@, uid@) {
                    Some(_) => final(table)@ == old(table)@,
                    None => connect_done(old(table)@, final(table)@, room_id@, uid@, false),
                },
                _ => final(table)@ == old(table)@,
            },
    {
        match (&self.current_room_id, &self.user_id) {
            (Some(room_id), Some(uid)) => {
                let _ = table.update_player_connected(room_id.clone(), uid.clone(), false);
            },
            _ => {},
        }
    }
}

} // verus!
