# disintea_server

Signalling, presence and chat server for the Disintea voice/screen-sharing app.

- `src/` — the verified library:
  - `messages` — the protocol messages and their mathematical views;
  - `session` — one connection as a state machine (`Session::step`), specified by `session::next`:
    registration, contacts, chat and call signalling between users, and the room protocol
    (join, offer/answer/ICE relayed within a room, leave);
  - `presence` — the registry of online users (a `DashMap`), specified as a finite map;
  - `rooms` — the room registry (room code → peers, a `DashMap`) and its per-room limit;
  - `history` — bounds of history queries and the ordering of their results;
  - `turn` — time-limited TURN credentials (HMAC-SHA1, Base64);
  - `decimal`, `clock` — decimal notation and the wall clock;
  - `laws` — properties of the state machine proved across events.
- `app/` — the server around it: HTTP and WebSocket handling (axum), JSON
  (serde), the SQLite store (sqlx), and the loop that feeds a connection's
  events to its session and performs the actions it returns.
- `tests/` — tests of the library on concrete values.
