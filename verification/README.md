# anychess

The rules engine of a chess variant (pawns that turn on their square,
ladders that knights build and other pieces climb, knights that take their
own rook to become knooks, forced en passant), and the decisions that its
game server and client take around a game, proved with Verus.

- `src/` is the verified library:
  - `piece.rs`, `chess_move.rs`: pieces, positions, directions and moves;
  - `board.rs`: the board, its view as mathematical values, playing a move,
    the starting position, its text and reading a placement;
  - `rules.rs`: the rules as spec functions: which moves a board offers,
    which are legal, and what playing one does;
  - `movegen.rs`: move generation and the legality check, proved against
    `rules.rs`;
  - `arena.rs`: the `generational_arena` calls that hold a board's ladders;
  - `table.rs`: a room's table and the replay of its events;
  - `server.rs`, `client.rs`: the decisions of the server (statuses, entry
    codes, authorisation headers, which moves it takes) and of the client
    (what a click does, how pieces are drawn, which rooms it keeps);
  - `laws.rs`: properties of the rules, of playing moves and of
    replaying events, each under the hypotheses its `requires` states.
- `tests/` runs the library on concrete games.
- `app/` is the server program: HTTP endpoints, websockets, the database and
  the serialised forms of the library's types.
