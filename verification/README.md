# Ring

Standalone netplay for Mega Man Battle Chip Challenge (US) and its JP version,
Rockman EXE Battle Chip GP: the game's link cable becomes a network connection.

- `src/` is the library, written and proved with Verus. It decides everything:
  how the two games' handshakes and byte streams are relayed, what each trap in
  the game does, how a connection is made and kept, and what each input does.
  It does no I/O.
- `app/` carries the library's decisions out: the window, SDL for audio and
  gamepads, the emulator, the matchmaking server and the data channel.
- `tests/` runs the library.

The game's comm library is replaced phase by phase. When the game opens a
handshake, both links count a new generation, and everything that is sent is
tagged with it, so that nothing of one generation is ever taken for part of
another. `src/relay.rs` proves what that buys: the byte stream arrives as it was
sent, and both ends end up in the same generation.
