# tictactoe

The rules of a two-player tic-tac-toe server, verified with Verus, and the
server around them.

`src/` is the verified library:

- `game`: the board, moves, win and draw detection, and the bookkeeping
  invariants that every move keeps.
- `room`: seating and unseating players in a room.
- `lobby`: the table of open rooms and what joining, moving and leaving do to
  it, together with the messages each step sends and to which sessions.
- `connection`: how one websocket connection reacts to client messages.
- `events`: the messages clients and server exchange.
- `auth`: token claims and how a request's token is found.
- `models`: the records the routes and the database exchange, room codes, and
  user-id keys.

`app/` is the server: actix-web routes, the websocket loop that runs the
connection logic and delivers its messages, JWT encoding and decoding, the
PostgreSQL store, and serde copies of the library's records.
