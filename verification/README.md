# chess

A chess board kept as bitboards (one `u64` per side, per kind of piece and for
the empty squares; bit 0 is a1, bit 63 is h8), with move tables, move
generation for each kind of piece, attacks and check, legal moves, the state of
the game (in progress, check, over) and promotion, verified with Verus.

- `src/bitboard.rs`: single-square boards, the steps and jumps of the pieces,
  bit reversal, and the listing of the squares of a board.
- `src/notation.rs`: square names ("e4") and direction names ("no_ea").
- `src/board.rs`: the placement of the pieces and what a move does to it.
- `src/game.rs`: the game, its tables and masks, and making moves.
- `src/game/moves.rs`: the squares each kind of piece can move to, attacks,
  check, legal moves and the state of the game.
- `src/game/render.rs`: the board drawn as text.
- `app/`: printing the board.
