# rusty_battle_tank

A tank battle game for programmed players: each player sees what its scans show, and
on each turn answers with one action (scan, move, rotate, fire or idle).

The library is written in Verus: every function of `src/` carries a contract that the
verifier proves.

- `src/api/` — what a player sees and does: positions, orientations, scans, the
  context of a turn, and shortest paths over a player's map (`path_finder`, an A*
  search proved to return a walkable way without repeated cells and of the fewest
  steps, and to find one whenever one exists, in a world small enough for its scores).
- `src/engine/` — the engine's own state for each tank, flying shells, the ranking of a
  finished game and of a championship, and the decisions of the game loop.
- `src/players/` — the players' logic, one module each.
- `src/chance.rs` — the random draws some players make, behind small wrappers around
  the `rand` crate.
- `src/table.rs`, `src/text.rs` — a table keyed by map positions, and text building.
- `tests/` — tests on concrete values for the library and its laws.
- `app/` — the program: it registers the players that are ready for a championship and
  prints the ranking of the games added to it (the game world that would play those
  games is not part of this project). `app/alvarez.rs` keeps the floating-point danger
  and strategic scores of one player's terrain map and the move it picks by them.
