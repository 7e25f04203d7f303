//! The game: the board, the move tables built when a game starts, the masks
//! of files, ranks and diagonals, and the operations on them.
use vstd::prelude::*;
use crate::bitboard::{
    black_pawn_attack, diagonal_step, file_index, has_bit, is_square, jump_nee, jump_nne, jump_nnw,
    jump_nww, jump_see, jump_sse, jump_ssw, jump_sww, king_attack, king_step, knight_attack,
    knight_jump, lemma_king_attack, lemma_knight_attack, lemma_or_and, lemma_or_repeat_first,
    lemma_pawn_attack, lemma_square_cases, lemma_square_index, lemma_square_injective,
    lemma_square_meets, lemma_square_shr, lemma_square_values, rank_index, square, square_index,
    white_pawn_attack, NOT_A_B_FILE, NOT_A_FILE, NOT_G_H_FILE, NOT_H_FILE,
};
use crate::board::{
    apply_move, consistent, initial_board, lemma_move_keeps_valid, opponent, placed_kind,
    promotion_rank, Board, Color, Piece,
};
use crate::game::moves::{
    in_check, is_legal, lemma_legal_below, lemma_legal_target, lemma_side_occupied,
    lemma_side_of_owner, legal_targets, state_after,
};
use crate::notation::{
    chars_eq, is_jump_name, is_square_name, is_step_name, jump_by_name, lemma_direction_literals,
    promotion_named, square_index_of_name, step_by_name, str_chars,
};

pub mod moves;
pub mod render;

verus! {

/// Where a game stands.
#[derive(Copy, Clone, Debug, PartialEq, Eq, Structural)]
pub enum GameState {
    InProgress,
    Check,
    GameOver,
}

/// What a game holds, as seen from outside: its state, its turn counter (odd
/// when white is to move), the kind a promoted pawn becomes, its board, its
/// move tables and its masks.
pub struct GameView {
    pub state: GameState,
    pub turn: usize,
    pub promotion: Piece,
    pub board: Board,
    pub white_pawn_attacks: Seq<u64>,
    pub black_pawn_attacks: Seq<u64>,
    pub knight_moves: Seq<u64>,
    pub king_moves: Seq<u64>,
    pub file_mask: Seq<u64>,
    pub rank_mask: Seq<u64>,
    pub diagonal_mask: Seq<u64>,
    pub anti_diagonal_mask: Seq<u64>,
}

/// A game of chess on bitboards.
pub struct Game {
    state: GameState,
    turn: usize,
    promotion: Piece,
    board: Board,
    // Move tables: entry `i` is for the square with index `63 - i`.
    white_pawn_attacks: [u64; 64],
    black_pawn_attacks: [u64; 64],
    knight_moves: [u64; 64],
    king_moves: [u64; 64],
    // Masks
    file_mask: [u64; 8],
    rank_mask: [u64; 8],
    diagonal_mask: [u64; 15],
    anti_diagonal_mask: [u64; 15],
}

impl View for Game {
    type V = GameView;

    closed spec fn view(&self) -> GameView {
        GameView {
            state: self.state,
            turn: self.turn,
            promotion: self.promotion,
            board: self.board,
            white_pawn_attacks: self.white_pawn_attacks@,
            black_pawn_attacks: self.black_pawn_attacks@,
            knight_moves: self.knight_moves@,
            king_moves: self.king_moves@,
            file_mask: self.file_mask@,
            rank_mask: self.rank_mask@,
            diagonal_mask: self.diagonal_mask@,
            anti_diagonal_mask: self.anti_diagonal_mask@,
        }
    }
}

/// The masks of the files a to h, by file.
pub open spec fn file_masks() -> Seq<u64> {
    seq![
        0x0101_0101_0101_0101u64,
        0x0202_0202_0202_0202u64,
        0x0404_0404_0404_0404u64,
        0x0808_0808_0808_0808u64,
        0x1010_1010_1010_1010u64,
        0x2020_2020_2020_2020u64,
        0x4040_4040_4040_4040u64,
        0x8080_8080_8080_8080u64,
    ]
}

/// The masks of the ranks 1 to 8, by rank.
pub open spec fn rank_masks() -> Seq<u64> {
    seq![
        0x0000_0000_0000_00ffu64,
        0x0000_0000_0000_ff00u64,
        0x0000_0000_00ff_0000u64,
        0x0000_0000_ff00_0000u64,
        0x0000_00ff_0000_0000u64,
        0x0000_ff00_0000_0000u64,
        0x00ff_0000_0000_0000u64,
        0xff00_0000_0000_0000u64,
    ]
}

/// The masks of the lines on which rank plus file is constant, by that sum.
pub open spec fn diagonal_masks() -> Seq<u64> {
    seq![
        0x0000_0000_0000_0001u64,
        0x0000_0000_0000_0102u64,
        0x0000_0000_0001_0204u64,
        0x0000_0000_0102_0408u64,
        0x0000_0001_0204_0810u64,
        0x0000_0102_0408_1020u64,
        0x0001_0204_0810_2040u64,
        0x0102_0408_1020_4080u64,
        0x0204_0810_2040_8000u64,
        0x0408_1020_4080_0000u64,
        0x0810_2040_8000_0000u64,
        0x1020_4080_0000_0000u64,
        0x2040_8000_0000_0000u64,
        0x4080_0000_0000_0000u64,
        0x8000_0000_0000_0000u64,
    ]
}

/// The masks of the lines on which rank minus file is constant, by that
/// difference plus 7.
pub open spec fn anti_diagonal_masks() -> Seq<u64> {
    seq![
        0x0000_0000_0000_0080u64,
        0x0000_0000_0000_8040u64,
        0x0000_0000_0080_4020u64,
        0x0000_0000_8040_2010u64,
        0x0000_0080_4020_1008u64,
        0x0000_8040_2010_0804u64,
        0x0080_4020_1008_0402u64,
        0x8040_2010_0804_0201u64,
        0x4020_1008_0402_0100u64,
        0x2010_0804_0201_0000u64,
        0x1008_0402_0100_0000u64,
        0x0804_0201_0000_0000u64,
        0x0402_0100_0000_0000u64,
        0x0201_0000_0000_0000u64,
        0x0100_0000_0000_0000u64,
    ]
}

/// The boards of the ranks and the files, as numbers: bit `m` is set
/// exactly for the squares of that rank or file.
proof fn lemma_rank_file_bits(m: u64)
    by (bit_vector)
    requires
        m < 64,
    ensures
        ((0xffu64 >> m) & 1 == 1) == (m / 8 == 0),
        ((0xff00u64 >> m) & 1 == 1) == (m / 8 == 1),
        ((0xff0000u64 >> m) & 1 == 1) == (m / 8 == 2),
        ((0xff000000u64 >> m) & 1 == 1) == (m / 8 == 3),
        ((0xff00000000u64 >> m) & 1 == 1) == (m / 8 == 4),
        ((0xff0000000000u64 >> m) & 1 == 1) == (m / 8 == 5),
        ((0xff000000000000u64 >> m) & 1 == 1) == (m / 8 == 6),
        ((0xff00000000000000u64 >> m) & 1 == 1) == (m / 8 == 7),
        ((0x101010101010101u64 >> m) & 1 == 1) == (m % 8 == 0),
        ((0x202020202020202u64 >> m) & 1 == 1) == (m % 8 == 1),
        ((0x404040404040404u64 >> m) & 1 == 1) == (m % 8 == 2),
        ((0x808080808080808u64 >> m) & 1 == 1) == (m % 8 == 3),
        ((0x1010101010101010u64 >> m) & 1 == 1) == (m % 8 == 4),
        ((0x2020202020202020u64 >> m) & 1 == 1) == (m % 8 == 5),
        ((0x4040404040404040u64 >> m) & 1 == 1) == (m % 8 == 6),
        ((0x8080808080808080u64 >> m) & 1 == 1) == (m % 8 == 7),
{
}

/// The boards of the diagonals on which rank plus file is constant, as
/// numbers.
proof fn lemma_diagonal_bits(m: u64)
    by (bit_vector)
    requires
        m < 64,
    ensures
        ((0x1u64 >> m) & 1 == 1) == (m / 8 + m % 8 == 0),
        ((0x102u64 >> m) & 1 == 1) == (m / 8 + m % 8 == 1),
        ((0x10204u64 >> m) & 1 == 1) == (m / 8 + m % 8 == 2),
        ((0x1020408u64 >> m) & 1 == 1) == (m / 8 + m % 8 == 3),
        ((0x102040810u64 >> m) & 1 == 1) == (m / 8 + m % 8 == 4),
        ((0x10204081020u64 >> m) & 1 == 1) == (m / 8 + m % 8 == 5),
        ((0x1020408102040u64 >> m) & 1 == 1) == (m / 8 + m % 8 == 6),
        ((0x102040810204080u64 >> m) & 1 == 1) == (m / 8 + m % 8 == 7),
        ((0x204081020408000u64 >> m) & 1 == 1) == (m / 8 + m % 8 == 8),
        ((0x408102040800000u64 >> m) & 1 == 1) == (m / 8 + m % 8 == 9),
        ((0x810204080000000u64 >> m) & 1 == 1) == (m / 8 + m % 8 == 10),
        ((0x1020408000000000u64 >> m) & 1 == 1) == (m / 8 + m % 8 == 11),
        ((0x2040800000000000u64 >> m) & 1 == 1) == (m / 8 + m % 8 == 12),
        ((0x4080000000000000u64 >> m) & 1 == 1) == (m / 8 + m % 8 == 13),
        ((0x8000000000000000u64 >> m) & 1 == 1) == (m / 8 + m % 8 == 14),
{
}

/// The boards of the diagonals on which rank minus file is constant, as
/// numbers.
proof fn lemma_anti_diagonal_bits(m: u64)
    by (bit_vector)
    requires
        m < 64,
    ensures
        ((0x80u64 >> m) & 1 == 1) == (m / 8 + 7 == m % 8 + 0),
        ((0x8040u64 >> m) & 1 == 1) == (m / 8 + 7 == m % 8 + 1),
        ((0x804020u64 >> m) & 1 == 1) == (m / 8 + 7 == m % 8 + 2),
        ((0x80402010u64 >> m) & 1 == 1) == (m / 8 + 7 == m % 8 + 3),
        ((0x8040201008u64 >> m) & 1 == 1) == (m / 8 + 7 == m % 8 + 4),
        ((0x804020100804u64 >> m) & 1 == 1) == (m / 8 + 7 == m % 8 + 5),
        ((0x80402010080402u64 >> m) & 1 == 1) == (m / 8 + 7 == m % 8 + 6),
        ((0x8040201008040201u64 >> m) & 1 == 1) == (m / 8 + 7 == m % 8 + 7),
        ((0x4020100804020100u64 >> m) & 1 == 1) == (m / 8 + 7 == m % 8 + 8),
        ((0x2010080402010000u64 >> m) & 1 == 1) == (m / 8 + 7 == m % 8 + 9),
        ((0x1008040201000000u64 >> m) & 1 == 1) == (m / 8 + 7 == m % 8 + 10),
        ((0x804020100000000u64 >> m) & 1 == 1) == (m / 8 + 7 == m % 8 + 11),
        ((0x402010000000000u64 >> m) & 1 == 1) == (m / 8 + 7 == m % 8 + 12),
        ((0x201000000000000u64 >> m) & 1 == 1) == (m / 8 + 7 == m % 8 + 13),
        ((0x100000000000000u64 >> m) & 1 == 1) == (m / 8 + 7 == m % 8 + 14),
{
}

/// A pawn is promoted on the last rank of its side: the eighth for white, the
/// first for black.
pub proof fn lemma_promotion_rank(c: Color, m: u64)
    requires
        m < 64,
    ensures
        has_bit(promotion_rank(c), m) == (rank_index(m) == if c == Color::White {
            7int
        } else {
            0int
        }),
{
    lemma_rank_file_bits(m);
}

/// The kind a piece has once moved to the square `j`: the kind `promotion`
/// for a pawn reaching the last rank of its side, its own kind otherwise.
pub proof fn lemma_placed_kind(b: Board, p: u64, j: u64, promotion: Piece)
    requires
        j < 64,
    ensures
        placed_kind(b, p, square(j), promotion) == if b.piece_on(p) == Piece::Pawn && rank_index(j)
            == (if b.color_on(p) == Color::White {
            7int
        } else {
            0int
        }) {
            promotion
        } else {
            b.piece_on(p)
        },
{
    lemma_promotion_rank(b.color_on(p), j);
    lemma_square_meets(promotion_rank(b.color_on(p)), j);
    lemma_or_and(square(j), promotion_rank(b.color_on(p)), 0);
}

/// The mask of rank `r` holds exactly the squares of that rank.
pub proof fn lemma_rank_masks(r: int, m: u64)
    requires
        0 <= r < 8,
        m < 64,
    ensures
        has_bit(rank_masks()[r], m) == (rank_index(m) == r),
{
    lemma_rank_file_bits(m);
    if r == 0 {
        assert(rank_masks()[0] == 0xffu64);
    } else if r == 1 {
        assert(rank_masks()[1] == 0xff00u64);
    } else if r == 2 {
        assert(rank_masks()[2] == 0xff0000u64);
    } else if r == 3 {
        assert(rank_masks()[3] == 0xff000000u64);
    } else if r == 4 {
        assert(rank_masks()[4] == 0xff00000000u64);
    } else if r == 5 {
        assert(rank_masks()[5] == 0xff0000000000u64);
    } else if r == 6 {
        assert(rank_masks()[6] == 0xff000000000000u64);
    } else if r == 7 {
        assert(rank_masks()[7] == 0xff00000000000000u64);
    }
}

/// The mask of file `f` holds exactly the squares of that file.
pub proof fn lemma_file_masks(f: int, m: u64)
    requires
        0 <= f < 8,
        m < 64,
    ensures
        has_bit(file_masks()[f], m) == (file_index(m) == f),
{
    lemma_rank_file_bits(m);
    if f == 0 {
        assert(file_masks()[0] == 0x101010101010101u64);
    } else if f == 1 {
        assert(file_masks()[1] == 0x202020202020202u64);
    } else if f == 2 {
        assert(file_masks()[2] == 0x404040404040404u64);
    } else if f == 3 {
        assert(file_masks()[3] == 0x808080808080808u64);
    } else if f == 4 {
        assert(file_masks()[4] == 0x1010101010101010u64);
    } else if f == 5 {
        assert(file_masks()[5] == 0x2020202020202020u64);
    } else if f == 6 {
        assert(file_masks()[6] == 0x4040404040404040u64);
    } else if f == 7 {
        assert(file_masks()[7] == 0x8080808080808080u64);
    }
}

/// The diagonal mask `d` holds exactly the squares whose rank plus file is
/// `d`.
pub proof fn lemma_diagonal_masks(d: int, m: u64)
    requires
        0 <= d < 15,
        m < 64,
    ensures
        has_bit(diagonal_masks()[d], m) == (rank_index(m) + file_index(m) == d),
{
    lemma_diagonal_bits(m);
    if d == 0 {
        assert(diagonal_masks()[0] == 0x1u64);
    } else if d == 1 {
        assert(diagonal_masks()[1] == 0x102u64);
    } else if d == 2 {
        assert(diagonal_masks()[2] == 0x10204u64);
    } else if d == 3 {
        assert(diagonal_masks()[3] == 0x1020408u64);
    } else if d == 4 {
        assert(diagonal_masks()[4] == 0x102040810u64);
    } else if d == 5 {
        assert(diagonal_masks()[5] == 0x10204081020u64);
    } else if d == 6 {
        assert(diagonal_masks()[6] == 0x1020408102040u64);
    } else if d == 7 {
        assert(diagonal_masks()[7] == 0x102040810204080u64);
    } else if d == 8 {
        assert(diagonal_masks()[8] == 0x204081020408000u64);
    } else if d == 9 {
        assert(diagonal_masks()[9] == 0x408102040800000u64);
    } else if d == 10 {
        assert(diagonal_masks()[10] == 0x810204080000000u64);
    } else if d == 11 {
        assert(diagonal_masks()[11] == 0x1020408000000000u64);
    } else if d == 12 {
        assert(diagonal_masks()[12] == 0x2040800000000000u64);
    } else if d == 13 {
        assert(diagonal_masks()[13] == 0x4080000000000000u64);
    } else if d == 14 {
        assert(diagonal_masks()[14] == 0x8000000000000000u64);
    }
}

/// The anti-diagonal mask `d` holds exactly the squares whose rank minus file
/// is `d - 7`.
pub proof fn lemma_anti_diagonal_masks(d: int, m: u64)
    requires
        0 <= d < 15,
        m < 64,
    ensures
        has_bit(anti_diagonal_masks()[d], m) == (rank_index(m) - file_index(m) + 7 == d),
{
    lemma_anti_diagonal_bits(m);
    if d == 0 {
        assert(anti_diagonal_masks()[0] == 0x80u64);
    } else if d == 1 {
        assert(anti_diagonal_masks()[1] == 0x8040u64);
    } else if d == 2 {
        assert(anti_diagonal_masks()[2] == 0x804020u64);
    } else if d == 3 {
        assert(anti_diagonal_masks()[3] == 0x80402010u64);
    } else if d == 4 {
        assert(anti_diagonal_masks()[4] == 0x8040201008u64);
    } else if d == 5 {
        assert(anti_diagonal_masks()[5] == 0x804020100804u64);
    } else if d == 6 {
        assert(anti_diagonal_masks()[6] == 0x80402010080402u64);
    } else if d == 7 {
        assert(anti_diagonal_masks()[7] == 0x8040201008040201u64);
    } else if d == 8 {
        assert(anti_diagonal_masks()[8] == 0x4020100804020100u64);
    } else if d == 9 {
        assert(anti_diagonal_masks()[9] == 0x2010080402010000u64);
    } else if d == 10 {
        assert(anti_diagonal_masks()[10] == 0x1008040201000000u64);
    } else if d == 11 {
        assert(anti_diagonal_masks()[11] == 0x804020100000000u64);
    } else if d == 12 {
        assert(anti_diagonal_masks()[12] == 0x402010000000000u64);
    } else if d == 13 {
        assert(anti_diagonal_masks()[13] == 0x201000000000000u64);
    } else if d == 14 {
        assert(anti_diagonal_masks()[14] == 0x100000000000000u64);
    }
}

/// The table entry for index `i` is the pattern of the square `63 - i`.
pub open spec fn table_square(i: int) -> u64 {
    square((63 - i) as u64)
}

/// The side to move on turn `turn`: white on odd turns, black on even ones.
pub open spec fn side_to_move(turn: usize) -> Color {
    if turn % 2 == 1 {
        Color::White
    } else {
        Color::Black
    }
}

/// The turn after `turn`, wrapping around at the largest `usize`.
pub open spec fn next_turn(turn: usize) -> usize {
    vstd::wrapping::usize_specs::wrapping_add(turn, 1)
}

/// The move from `position` to `target` is made: the game is not over,
/// `position` is a single square of the side to move, and `target` is a single
/// square that piece may legally go to.
pub open spec fn move_allowed(g: GameView, position: u64, target: u64) -> bool {
    &&& g.state != GameState::GameOver
    &&& is_square(position)
    &&& position & g.board.side(side_to_move(g.turn)) != 0
    &&& is_square(target)
    &&& target & legal_targets(g.board, position, g.promotion) != 0
}

/// Each turn hands the move to the other side, also when the counter wraps.
pub proof fn lemma_turns_alternate(turn: usize)
    ensures
        side_to_move(next_turn(turn)) == opponent(side_to_move(turn)),
{
}

/// A move the game lists for a piece of the side to move is made, while the
/// game is not over.
pub proof fn lemma_listed_moves_are_made(g: GameView, position: u64, target: u64)
    requires
        g.wf(),
        g.state != GameState::GameOver,
        is_square(position),
        position & g.board.side(side_to_move(g.turn)) != 0,
        is_legal(g.board, position, target, g.promotion),
    ensures
        move_allowed(g, position, target),
{
    lemma_square_index(target);
    lemma_legal_below(g.board, position, g.promotion, 64, square_index(target));
    let l = legal_targets(g.board, position, g.promotion);
    lemma_or_and(l, target, 0);
}

/// A move that is made never leaves the mover's king attacked, and keeps the
/// board consistent (each side keeps a single king).
pub proof fn lemma_made_moves_leave_king_safe(g: GameView, position: u64, target: u64)
    requires
        g.wf(),
        move_allowed(g, position, target),
    ensures
        !in_check(apply_move(g.board, position, target, g.promotion), side_to_move(g.turn)),
        apply_move(g.board, position, target, g.promotion).is_valid(),
{
    lemma_side_occupied(g.board, position, side_to_move(g.turn));
    lemma_legal_target(g.board, position, target, g.promotion);
    lemma_side_of_owner(g.board, position);
    lemma_move_keeps_valid(g.board, position, target, g.promotion);
}

/// Each entry of the knight table holds exactly the squares a knight's jump
/// from its square.
pub proof fn lemma_knight_table(g: GameView, k: u64, j: u64)
    requires
        g.has_move_tables(),
        k < 64,
        j < 64,
    ensures
        (g.knight_moves[63 - k] & square(j) != 0) == knight_jump(k, j),
{
    assert(g.knight_moves[63 - k] == knight_attack(table_square(63 - k)));
    lemma_knight_attack(k, j);
}

/// Each entry of the king table holds exactly the squares next to its square,
/// those of its own rank included.
pub proof fn lemma_king_table(g: GameView, k: u64, j: u64)
    requires
        g.has_move_tables(),
        k < 64,
        j < 64,
    ensures
        (g.king_moves[63 - k] & square(j) != 0) == king_step(k, j),
{
    assert(g.king_moves[63 - k] == king_attack(table_square(63 - k)));
    lemma_king_attack(k, j);
}

/// Each entry of the pawn tables holds exactly the squares diagonally in
/// front of its square: one rank up for white, one rank down for black.
pub proof fn lemma_pawn_tables(g: GameView, k: u64, j: u64)
    requires
        g.has_move_tables(),
        k < 64,
        j < 64,
    ensures
        (g.white_pawn_attacks[63 - k] & square(j) != 0) == diagonal_step(k, j, true),
        (g.black_pawn_attacks[63 - k] & square(j) != 0) == diagonal_step(k, j, false),
{
    assert(g.white_pawn_attacks[63 - k] == white_pawn_attack(table_square(63 - k)));
    assert(g.black_pawn_attacks[63 - k] == black_pawn_attack(table_square(63 - k)));
    lemma_pawn_attack(k, j);
}

impl GameView {
    /// The four move tables hold, for every square, the squares a white pawn,
    /// a black pawn, a knight and a king there attack.
    pub open spec fn has_move_tables(&self) -> bool {
        &&& self.white_pawn_attacks.len() == 64
        &&& self.black_pawn_attacks.len() == 64
        &&& self.knight_moves.len() == 64
        &&& self.king_moves.len() == 64
        &&& forall|i: int|
            0 <= i < 64 ==> #[trigger] self.white_pawn_attacks[i] == white_pawn_attack(
                table_square(i),
            )
        &&& forall|i: int|
            0 <= i < 64 ==> #[trigger] self.black_pawn_attacks[i] == black_pawn_attack(
                table_square(i),
            )
        &&& forall|i: int|
            0 <= i < 64 ==> #[trigger] self.knight_moves[i] == knight_attack(table_square(i))
        &&& forall|i: int|
            0 <= i < 64 ==> #[trigger] self.king_moves[i] == king_attack(table_square(i))
    }

    /// The masks hold the files, ranks and diagonals.
    pub open spec fn has_masks(&self) -> bool {
        &&& self.file_mask == file_masks()
        &&& self.rank_mask == rank_masks()
        &&& self.diagonal_mask == diagonal_masks()
        &&& self.anti_diagonal_mask == anti_diagonal_masks()
    }

    /// What every game keeps: a consistent board, its tables and masks, and a
    /// promotion kind other than pawn and king.
    pub open spec fn wf(&self) -> bool {
        &&& self.board.is_valid()
        &&& self.has_move_tables()
        &&& self.has_masks()
        &&& self.promotion != Piece::Pawn
        &&& self.promotion != Piece::King
    }
}

impl Game {
    /// See `GameView::wf`.
    pub open spec fn wf(&self) -> bool {
        self@.wf()
    }

    /// `other` differs from `self` in its move tables alone.
    closed spec fn same_but_tables(&self, other: &Game) -> bool {
        &&& self.state == other.state
        &&& self.turn == other.turn
        &&& self.promotion == other.promotion
        &&& self.board == other.board
        &&& self.file_mask == other.file_mask
        &&& self.rank_mask == other.rank_mask
        &&& self.diagonal_mask == other.diagonal_mask
        &&& self.anti_diagonal_mask == other.anti_diagonal_mask
    }

    /// Initializes a new board with pieces.
    pub fn new() -> (game: Game)
        ensures
            game.wf(),
            game@.state == GameState::InProgress,
            game@.turn == 1,
            game@.promotion == Piece::Queen,
            game@.board == initial_board(),
    {
        let mut game = Game {
            state: GameState::InProgress,
            turn: 1,
            promotion: Piece::Queen,
            board: Board {
                white: 0x0000_0000_0000_ffff,
                black: 0xffff_0000_0000_0000,
                pawn: 0x00ff_0000_0000_ff00,
                knight: 0x4200_0000_0000_0042,
                bishop: 0x2400_0000_0000_0024,
                rook: 0x8100_0000_0000_0081,
                queen: 0x0800_0000_0000_0008,
                king: 0x1000_0000_0000_0010,
                empty: 0x0000_ffff_ffff_0000,
            },
            // Filled by initialize_move_tables.
            white_pawn_attacks: [0; 64],
            black_pawn_attacks: [0; 64],
            knight_moves: [0; 64],
            king_moves: [0; 64],
            file_mask: [
                0x0101_0101_0101_0101,
                0x0202_0202_0202_0202,
                0x0404_0404_0404_0404,
                0x0808_0808_0808_0808,
                0x1010_1010_1010_1010,
                0x2020_2020_2020_2020,
                0x4040_4040_4040_4040,
                0x8080_8080_8080_8080,
            ],
            rank_mask: [
                0x0000_0000_0000_00ff,
                0x0000_0000_0000_ff00,
                0x0000_0000_00ff_0000,
                0x0000_0000_ff00_0000,
                0x0000_00ff_0000_0000,
                0x0000_ff00_0000_0000,
                0x00ff_0000_0000_0000,
                0xff00_0000_0000_0000,
            ],
            diagonal_mask: [
                0x0000_0000_0000_0001,
                0x0000_0000_0000_0102,
                0x0000_0000_0001_0204,
                0x0000_0000_0102_0408,
                0x0000_0001_0204_0810,
                0x0000_0102_0408_1020,
                0x0001_0204_0810_2040,
                0x0102_0408_1020_4080,
                0x0204_0810_2040_8000,
                0x0408_1020_4080_0000,
                0x0810_2040_8000_0000,
                0x1020_4080_0000_0000,
                0x2040_8000_0000_0000,
                0x4080_0000_0000_0000,
                0x8000_0000_0000_0000,
            ],
            anti_diagonal_mask: [
                0x0000_0000_0000_0080,
                0x0000_0000_0000_8040,
                0x0000_0000_0080_4020,
                0x0000_0000_8040_2010,
                0x0000_0080_4020_1008,
                0x0000_8040_2010_0804,
                0x0080_4020_1008_0402,
                0x8040_2010_0804_0201,
                0x4020_1008_0402_0100,
                0x2010_0804_0201_0000,
                0x1008_0402_0100_0000,
                0x0804_0201_0000_0000,
                0x0402_0100_0000_0000,
                0x0201_0000_0000_0000,
                0x0100_0000_0000_0000,
            ],
        };
        game.initialize_move_tables();
        proof {
            let b = initial_board();
            let (w, k, e, pa, kn, bi, ro, qu, ki) = (
                b.white,
                b.black,
                b.empty,
                b.pawn,
                b.knight,
                b.bishop,
                b.rook,
                b.queen,
                b.king,
            );
            assert(w == 0x0000_0000_0000_ffffu64 && k == 0xffff_0000_0000_0000u64 && e
                == 0x0000_ffff_ffff_0000u64 && pa == 0x00ff_0000_0000_ff00u64 && kn
                == 0x4200_0000_0000_0042u64 && bi == 0x2400_0000_0000_0024u64 && ro
                == 0x8100_0000_0000_0081u64 && qu == 0x0800_0000_0000_0008u64 && ki
                == 0x1000_0000_0000_0010u64 ==> consistent(w, k, e, pa, kn, bi, ro, qu, ki))
                by (bit_vector);
        }
        game
    }

    /// Sets the kind of piece a pawn becomes when it reaches its last rank:
    /// "queen", "rook", "bishop" or "knight". Any other name leaves the game
    /// as it is.
    pub fn set_promotion(&mut self, piece: String)
        ensures
            final(self)@ == (GameView {
                promotion: match promotion_named(piece@) {
                    Some(k) => k,
                    None => old(self)@.promotion,
                },
                ..old(self)@
            }),
    {
        let name = str_chars(piece.as_str());
        if chars_eq(&name, &['q', 'u', 'e', 'e', 'n']) {
            self.promotion = Piece::Queen;
        } else if chars_eq(&name, &['r', 'o', 'o', 'k']) {
            self.promotion = Piece::Rook;
        } else if chars_eq(&name, &['b', 'i', 's', 'h', 'o', 'p']) {
            self.promotion = Piece::Bishop;
        } else if chars_eq(&name, &['k', 'n', 'i', 'g', 'h', 't']) {
            self.promotion = Piece::Knight;
        }
    }

    /// The current state of the game.
    pub fn get_game_state(&self) -> (r: GameState)
        ensures
            r == self@.state,
    {
        self.state
    }

    /// The placement of the pieces.
    pub fn get_board(&self) -> (b: Board)
        ensures
            b == self@.board,
    {
        self.board
    }

    /// The white pawn attack table: entry `i` holds the squares a white pawn
    /// on the square with index `63 - i` attacks.
    pub fn white_pawn_attacks(&self) -> (r: [u64; 64])
        ensures
            r@ == self@.white_pawn_attacks,
    {
        self.white_pawn_attacks
    }

    /// If the game is not over and the move from `position` to `target` is
    /// legal for the side to move, makes it and returns the resulting state of
    /// the game (see `move_allowed` and `state_after`); otherwise returns
    /// `None` and leaves the game as it is.
    pub fn make_move(&mut self, position: u64, target: u64) -> (r: Option<GameState>)
        requires
            old(self).wf(),
        ensures
            final(self).wf(),
            move_allowed(old(self)@, position, target) ==> {
                let b = apply_move(old(self)@.board, position, target, old(self)@.promotion);
                let next = opponent(side_to_move(old(self)@.turn));
                &&& final(self)@ == (GameView {
                    board: b,
                    turn: next_turn(old(self)@.turn),
                    state: state_after(b, next, old(self)@.promotion),
                    ..old(self)@
                })
                &&& r == Some(final(self)@.state)
            },
            !move_allowed(old(self)@, position, target) ==> final(self)@ == old(self)@ && r is None,
    {
        if self.state == GameState::GameOver {
            return None;
        }
        let side = if self.turn % 2 == 1 {
            Color::White
        } else {
            Color::Black
        };
        if !(position != 0 && position & (position - 1) == 0) {
            return None;
        }
        if position & self.board.side_bits(side) == 0 {
            return None;
        }
        if !(target != 0 && target & (target - 1) == 0) {
            return None;
        }
        proof {
            lemma_side_occupied(self.board, position, side);
        }
        let legal = self.legal_targets(&self.board, position);
        if target & legal == 0 {
            return None;
        }
        proof {
            lemma_legal_target(self.board, position, target, self.promotion);
            lemma_side_of_owner(self.board, position);
            lemma_move_keeps_valid(self.board, position, target, self.promotion);
        }
        let promotion = self.promotion;
        self.board.move_piece(position, target, promotion);
        self.turn = self.turn.wrapping_add(1);
        let next = side.other();
        let board = self.board;
        self.state = self.state_after(&board, next);
        Some(self.state)
    }

    /// The board of the square named `position` in standard notation, such as
    /// "a6", "e4" or "h8".
    pub fn get_position(position: &str) -> (r: u64)
        requires
            is_square_name(position@),
        ensures
            r == square(square_index_of_name(position@)),
    {
        let name = str_chars(position);
        let file: u32 = name[0] as u32 - 'a' as u32;
        let rank: u32 = name[1] as u32 - '1' as u32;
        1u64 << ((8 * rank + file) as u64)
    }

    /// The index (0 for a1, 63 for h8) of the single square `position`.
    pub fn get_int_position(position: u64) -> (r: usize)
        requires
            is_square(position),
        ensures
            r < 64,
            square(r as u64) == position,
            r == square_index(position),
    {
        proof {
            lemma_square_values();
            lemma_square_cases(position);
            lemma_square_index(position);
        }
        let r: usize = match position {
            0x0000_0000_0000_0001 => 0,
            0x0000_0000_0000_0002 => 1,
            0x0000_0000_0000_0004 => 2,
            0x0000_0000_0000_0008 => 3,
            0x0000_0000_0000_0010 => 4,
            0x0000_0000_0000_0020 => 5,
            0x0000_0000_0000_0040 => 6,
            0x0000_0000_0000_0080 => 7,
            0x0000_0000_0000_0100 => 8,
            0x0000_0000_0000_0200 => 9,
            0x0000_0000_0000_0400 => 10,
            0x0000_0000_0000_0800 => 11,
            0x0000_0000_0000_1000 => 12,
            0x0000_0000_0000_2000 => 13,
            0x0000_0000_0000_4000 => 14,
            0x0000_0000_0000_8000 => 15,
            0x0000_0000_0001_0000 => 16,
            0x0000_0000_0002_0000 => 17,
            0x0000_0000_0004_0000 => 18,
            0x0000_0000_0008_0000 => 19,
            0x0000_0000_0010_0000 => 20,
            0x0000_0000_0020_0000 => 21,
            0x0000_0000_0040_0000 => 22,
            0x0000_0000_0080_0000 => 23,
            0x0000_0000_0100_0000 => 24,
            0x0000_0000_0200_0000 => 25,
            0x0000_0000_0400_0000 => 26,
            0x0000_0000_0800_0000 => 27,
            0x0000_0000_1000_0000 => 28,
            0x0000_0000_2000_0000 => 29,
            0x0000_0000_4000_0000 => 30,
            0x0000_0000_8000_0000 => 31,
            0x0000_0001_0000_0000 => 32,
            0x0000_0002_0000_0000 => 33,
            0x0000_0004_0000_0000 => 34,
            0x0000_0008_0000_0000 => 35,
            0x0000_0010_0000_0000 => 36,
            0x0000_0020_0000_0000 => 37,
            0x0000_0040_0000_0000 => 38,
            0x0000_0080_0000_0000 => 39,
            0x0000_0100_0000_0000 => 40,
            0x0000_0200_0000_0000 => 41,
            0x0000_0400_0000_0000 => 42,
            0x0000_0800_0000_0000 => 43,
            0x0000_1000_0000_0000 => 44,
            0x0000_2000_0000_0000 => 45,
            0x0000_4000_0000_0000 => 46,
            0x0000_8000_0000_0000 => 47,
            0x0001_0000_0000_0000 => 48,
            0x0002_0000_0000_0000 => 49,
            0x0004_0000_0000_0000 => 50,
            0x0008_0000_0000_0000 => 51,
            0x0010_0000_0000_0000 => 52,
            0x0020_0000_0000_0000 => 53,
            0x0040_0000_0000_0000 => 54,
            0x0080_0000_0000_0000 => 55,
            0x0100_0000_0000_0000 => 56,
            0x0200_0000_0000_0000 => 57,
            0x0400_0000_0000_0000 => 58,
            0x0800_0000_0000_0000 => 59,
            0x1000_0000_0000_0000 => 60,
            0x2000_0000_0000_0000 => 61,
            0x4000_0000_0000_0000 => 62,
            0x8000_0000_0000_0000 => 63,
            // Not reached: a single square is one of the 64 above.
            _ => 64,
        };
        proof {
            lemma_square_injective(r as u64, square_index(position));
        }
        r
    }

    /// Moves the board `bit` one square in the direction `dir`, as seen from
    /// white: "north", "south", "east", "west", "no_ea" (north east), "so_ea"
    /// (south east), "no_we" (north west) or "so_we" (south west). Squares
    /// that would leave the board are dropped.
    pub fn one_step(dir: &str, bit: u64) -> (r: u64)
        requires
            is_step_name(dir@),
        ensures
            r == step_by_name(dir@, bit),
    {
        let d = str_chars(dir);
        if chars_eq(&d, &['n', 'o', 'r', 't', 'h']) {
            bit << 8
        } else if chars_eq(&d, &['s', 'o', 'u', 't', 'h']) {
            bit >> 8
        } else if chars_eq(&d, &['e', 'a', 's', 't']) {
            (bit << 1) & NOT_A_FILE
        } else if chars_eq(&d, &['n', 'o', '_', 'e', 'a']) {
            (bit << 9) & NOT_A_FILE
        } else if chars_eq(&d, &['s', 'o', '_', 'e', 'a']) {
            (bit >> 7) & NOT_A_FILE
        } else if chars_eq(&d, &['w', 'e', 's', 't']) {
            (bit >> 1) & NOT_H_FILE
        } else if chars_eq(&d, &['n', 'o', '_', 'w', 'e']) {
            (bit << 7) & NOT_H_FILE
        } else {
            (bit >> 9) & NOT_H_FILE
        }
    }

    /// Fills the four move tables: entry `i` of each is for the square with
    /// index `63 - i`.
    pub fn initialize_move_tables(&mut self)
        ensures
            final(self)@ == (GameView {
                white_pawn_attacks: final(self)@.white_pawn_attacks,
                black_pawn_attacks: final(self)@.black_pawn_attacks,
                knight_moves: final(self)@.knight_moves,
                king_moves: final(self)@.king_moves,
                ..old(self)@
            }),
            final(self)@.has_move_tables(),
    {
        // White pawn attacks
        let mut iter_bit: u64 = 0x8000_0000_0000_0000;
        proof {
            lemma_square_values();
        }
        for i in 0..64
            invariant
                i < 64 ==> iter_bit == table_square(i as int),
                self.same_but_tables(old(self)),
                forall|j: int|
                    0 <= j < i ==> #[trigger] self.white_pawn_attacks[j] == white_pawn_attack(
                        table_square(j),
                    ),
        {
            proof {
                lemma_direction_literals();
            }
            self.white_pawn_attacks[i] = Game::one_step("no_ea", iter_bit) | Game::one_step(
                "no_we",
                iter_bit,
            );
            if i < 63 {
                proof {
                    lemma_square_shr((63 - i) as u64);
                }
            }
            iter_bit >>= 1;
        }
        iter_bit = 0x8000_0000_0000_0000;
        // Black pawn attacks
        for i in 0..64
            invariant
                i < 64 ==> iter_bit == table_square(i as int),
                self.same_but_tables(old(self)),
                forall|j: int|
                    0 <= j < 64 ==> #[trigger] self.white_pawn_attacks[j] == white_pawn_attack(
                        table_square(j),
                    ),
                forall|j: int|
                    0 <= j < i ==> #[trigger] self.black_pawn_attacks[j] == black_pawn_attack(
                        table_square(j),
                    ),
        {
            proof {
                lemma_direction_literals();
            }
            self.black_pawn_attacks[i] = Game::one_step("so_ea", iter_bit) | Game::one_step(
                "so_we",
                iter_bit,
            );
            if i < 63 {
                proof {
                    lemma_square_shr((63 - i) as u64);
                }
            }
            iter_bit >>= 1;
        }
        iter_bit = 0x8000_0000_0000_0000;
        for i in 0..64
            invariant
                i < 64 ==> iter_bit == table_square(i as int),
                self.same_but_tables(old(self)),
                forall|j: int|
                    0 <= j < 64 ==> #[trigger] self.white_pawn_attacks[j] == white_pawn_attack(
                        table_square(j),
                    ),
                forall|j: int|
                    0 <= j < 64 ==> #[trigger] self.black_pawn_attacks[j] == black_pawn_attack(
                        table_square(j),
                    ),
                forall|j: int|
                    0 <= j < i ==> #[trigger] self.knight_moves[j] == knight_attack(
                        table_square(j),
                    ),
        {
            proof {
                lemma_direction_literals();
            }
            self.knight_moves[i] = Game::horse_step("no_no_we", iter_bit) | Game::horse_step(
                "no_we_we",
                iter_bit,
            ) | Game::horse_step("so_we_we", iter_bit) | Game::horse_step("so_so_we", iter_bit)
                | Game::horse_step("so_so_ea", iter_bit) | Game::horse_step("so_ea_ea", iter_bit)
                | Game::horse_step("no_ea_ea", iter_bit) | Game::horse_step("no_no_ea", iter_bit)
                | Game::horse_step("no_no_we", iter_bit);
            proof {
                lemma_or_repeat_first(
                    jump_nnw(iter_bit),
                    jump_nww(iter_bit),
                    jump_sww(iter_bit),
                    jump_ssw(iter_bit),
                    jump_sse(iter_bit),
                    jump_see(iter_bit),
                    jump_nee(iter_bit),
                    jump_nne(iter_bit),
                );
            }
            if i < 63 {
                proof {
                    lemma_square_shr((63 - i) as u64);
                }
            }
            iter_bit >>= 1;
        }
        iter_bit = 0x8000_0000_0000_0000;
        for i in 0..64
            invariant
                i < 64 ==> iter_bit == table_square(i as int),
                self.same_but_tables(old(self)),
                forall|j: int|
                    0 <= j < 64 ==> #[trigger] self.white_pawn_attacks[j] == white_pawn_attack(
                        table_square(j),
                    ),
                forall|j: int|
                    0 <= j < 64 ==> #[trigger] self.black_pawn_attacks[j] == black_pawn_attack(
                        table_square(j),
                    ),
                forall|j: int|
                    0 <= j < 64 ==> #[trigger] self.knight_moves[j] == knight_attack(
                        table_square(j),
                    ),
                forall|j: int|
                    0 <= j < i ==> #[trigger] self.king_moves[j] == king_attack(table_square(j)),
        {
            proof {
                lemma_direction_literals();
            }
            let row: u64 = Game::one_step("east", iter_bit) | Game::one_step("west", iter_bit);
            let king_row: u64 = iter_bit | row;
            self.king_moves[i] = Game::one_step("north", king_row) | Game::one_step(
                "south",
                king_row,
            ) | row;
            if i < 63 {
                proof {
                    lemma_square_shr((63 - i) as u64);
                }
            }
            iter_bit >>= 1;
        }
    }

    /// Moves the board `bit` by the knight jump `dir`: "no_no_ea", "no_ea_ea",
    /// "so_ea_ea", "so_so_ea", "no_no_we", "no_we_we", "so_we_we" or
    /// "so_so_we". Squares that would leave the board are dropped.
    pub fn horse_step(dir: &str, bit: u64) -> (r: u64)
        requires
            is_jump_name(dir@),
        ensures
            r == jump_by_name(dir@, bit),
    {
        let d = str_chars(dir);
        if chars_eq(&d, &['n', 'o', '_', 'n', 'o', '_', 'e', 'a']) {
            (bit << 17) & NOT_A_FILE
        } else if chars_eq(&d, &['n', 'o', '_', 'e', 'a', '_', 'e', 'a']) {
            (bit << 10) & NOT_A_B_FILE
        } else if chars_eq(&d, &['s', 'o', '_', 'e', 'a', '_', 'e', 'a']) {
            (bit >> 6) & NOT_A_B_FILE
        } else if chars_eq(&d, &['s', 'o', '_', 's', 'o', '_', 'e', 'a']) {
            (bit >> 15) & NOT_A_FILE
        } else if chars_eq(&d, &['n', 'o', '_', 'n', 'o', '_', 'w', 'e']) {
            (bit << 15) & NOT_H_FILE
        } else if chars_eq(&d, &['n', 'o', '_', 'w', 'e', '_', 'w', 'e']) {
            (bit << 6) & NOT_G_H_FILE
        } else if chars_eq(&d, &['s', 'o', '_', 'w', 'e', '_', 'w', 'e']) {
            (bit >> 10) & NOT_G_H_FILE
        } else {
            (bit >> 17) & NOT_H_FILE
        }
    }
}

} // verus!
