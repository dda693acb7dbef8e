# uci_engine_template

A minimal UCI chess engine that plays random legal moves, written as a Verus
library with a thin command-line program around it.

- `src/text.rs`: white space, words, trimming, joining and `u64` numerals.
- `src/search/limits.rs`: the limits of a `go` command and their parser.
- `src/uci/`: command values, the line parser, response lines, and the
  per-command decisions of the conversation (`dispatch_uci_command`).
- `src/board/position.rs`: positions on top of `cozy_chess`; a position's view
  is its base (start position or FEN) and the moves played from it, and the
  board it holds is always the one that view describes.
- `src/engine/`: the `MoveSelector` trait, the random selector (`rand`), and
  the engine session.
- `app/main.rs`: reads standard input, writes the answers to standard output
  and diagnostics to standard error.

The tests under `tests/` drive the parser and the dispatcher with scripted
conversations.
