# battletris

A verified core for Battletris, a two-player falling-block game in which cleared
lines earn funds that buy weapons to launch at the opponent.

The library in `src/` is written in Verus. Every executable function carries a
`requires`/`ensures` contract over mathematical models (sequences of cells, piece
shapes, weight tables, event logs), and Verus proves the code against it.

## Layout

- `src/cell.rs`, `src/board.rs`: cells and the 10×28 board. This covers line
  clears, garbage lines, flips, legacy snapshots and the random cell effects.
- `src/piece.rs`, `src/piece_generator.rs`, `src/rng.rs`: piece shapes and
  rotations, the weighted piece generator, and the seeded ChaCha streams that
  make play replayable.
- `src/score.rs`, `src/weapons.rs`: funds, score, the arsenal, the bazaar and
  timed effects.
- `src/game.rs`: the single-board loop (`PieceLoop`) and the two-player game
  (`TwoPlayerGame`). This covers ticks, commands, locks, weapon launches,
  recon and the event log.
- `src/recon.rs`, `src/ai.rs`: spy reports and the computer player's placement
  search.
- `src/wire.rs`, `src/protocol/`: frame and message encodings of the modern
  protocol, and the legacy network protocol.
- `src/text.rs`, `src/fixtures.rs`, `src/ppm.rs`: text renderings, board
  fixtures and PPM art decoding.
- `src/server.rs`, `src/db.rs`: the hosted lobby's session rules and the ranked
  result rules.
- `tests/`: executable tests on concrete values.
- `app/`: unverified plumbing around the library. This covers serde
  encodings, sockets, the SQLite store and the server process.

Every random effect (piece draws, die pips, weapon effects, recon samples and the
computer's shopping) is stated over `chacha_next`, the draw a ChaCha12 generator
makes from its state. The replay laws (`lemma_replay`, `lemma_weapon_replay`,
`lemma_shop_replay`) show that equal starting states give equal outcomes.

Outside crates (`rand`, `rand_chacha`, `rusqlite`) are reached only through
small trusted wrappers, whose doc comments say what each one claims.
