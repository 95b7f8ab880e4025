# Hockey shootout

The rules of a penalty shootout as a game mode of a hockey server, verified with Verus.

* `src/` is the verified library. `model.rs` describes the shootout as a state machine over
  integers, sequences and maps; `behaviour.rs` is the game mode, each operation of which is
  proved to be a step of that machine. `attempt.rs` holds the stages of one attempt,
  `commands.rs` the chat commands, `join.rs` the line of players for the teams, `server.rs`
  the picture of the server and what it is asked to do, `single.rs` the order of
  single-precision numbers, `text.rs` numbers and words, and `laws.rs` and `cooldown.rs` what
  follows from all this for every game.
* `app/` ties the library to the server: it takes pictures of the server, computes
  coordinates, and does what the rules ask for.
* `tests/` runs the library.
