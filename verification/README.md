# giuroll

The netplay of a rollback session for up to four players, as a verified library.

The library decides; it touches no socket, no clock and no memory of the game.
What it is handed are bytes, moments and the state of the rollback engine, and
what it hands back is what to send, what to show and what to wait for. Each
public function states in its contract what it returns and what it changes, and
Verus proves it.

* `src/peers.rs` keeps whose inputs are known, what was guessed for the rest, and
  when a guess was wrong.
* `src/netcode.rs` runs a session frame by frame, over the picture of it in
  `src/session.rs`. `packet`, `keys`, `budget`, `timesync` and `desync` hold its
  parts: the bytes of a packet, the keys in it, the agreed rollback budget, the
  frame clock, and the comparison of states.
* `src/mesh.rs` finds direct paths between the players, and `src/dispatch.rs`
  gets a packet to everyone, directly or through the relay.
* `src/peers_laws.rs`, `src/session_laws.rs` and `src/mesh_laws.rs` state what
  holds over several calls.
* `app/` is the library inside the running game: the game's memory and socket,
  the clock and the console. It is not verified.
