//! The squares each kind of piece can move to, attacks on a square, check,
//! and the legal moves of a side.
use vstd::prelude::*;
use crate::bitboard::{
    between, black_pawn_attack, clear_between, diagonal_step, file_index, has_bit, is_square,
    king_attack, king_step, knight_attack, knight_jump, lemma_bit_facts, lemma_clear_between_bits,
    lemma_empty_iff_no_bits, lemma_king_attack, lemma_knight_attack, lemma_or_and,
    lemma_pawn_attack, lemma_slide_reaches, lemma_square_index, lemma_square_injective,
    lemma_square_is_square, lemma_square_meets, lemma_square_shl, lemma_square_shr,
    lemma_square_values, lemma_squares_from, north, rank_index, reverse_bits, slide, south, square,
    square_index, squares_from, white_pawn_attack,
};
use crate::board::{apply_move, lemma_move_keeps_valid, opponent, Board, Color, Piece};
use crate::game::{
    anti_diagonal_masks, diagonal_masks, file_masks, lemma_anti_diagonal_masks,
    lemma_diagonal_masks, lemma_file_masks, lemma_rank_masks, rank_masks, table_square, Game,
    GameState,
};
use crate::notation::lemma_direction_literals;

verus! {

/// The fourth rank, which a white pawn reaches with a double push.
pub const RANK_4: u64 = 0x0000_0000_ff00_0000;

/// The fifth rank, which a black pawn reaches with a double push.
pub const RANK_5: u64 = 0x0000_00ff_0000_0000;

/// The board of the side that owns `position`; nothing when no piece stands
/// there.
pub open spec fn own_side(b: Board, position: u64) -> u64 {
    if position & b.white != 0 {
        b.white
    } else if position & b.black != 0 {
        b.black
    } else {
        0
    }
}

/// The squares of `line` a sliding piece on `position` reaches over the
/// occupied squares `occupied`: up to and including the first occupied square
/// of the line each way (see `lemma_line_reaches`).
pub open spec fn line_attack(occupied: u64, position: u64, line: u64) -> u64 {
    slide(occupied & line, position) & line
}

/// The rank mask of the square with index `k`.
pub open spec fn rank_of(k: u64) -> u64 {
    rank_masks()[(k / 8) as int]
}

/// The file mask of the square with index `k`.
pub open spec fn file_of(k: u64) -> u64 {
    file_masks()[(k % 8) as int]
}

/// The diagonal through the square with index `k` on which rank plus file is
/// constant.
pub open spec fn diagonal_of(k: u64) -> u64 {
    diagonal_masks()[(k / 8 + k % 8) as int]
}

/// The diagonal through the square with index `k` on which rank minus file
/// is constant.
pub open spec fn anti_diagonal_of(k: u64) -> u64 {
    anti_diagonal_masks()[(k / 8 + (7 - k % 8)) as int]
}

/// The squares a rook on the single square `position` reaches.
pub open spec fn rook_attack(occupied: u64, position: u64) -> u64 {
    let k = square_index(position);
    line_attack(occupied, position, rank_of(k)) | line_attack(occupied, position, file_of(k))
}

/// The squares a bishop on the single square `position` reaches.
pub open spec fn bishop_attack(occupied: u64, position: u64) -> u64 {
    let k = square_index(position);
    line_attack(occupied, position, diagonal_of(k)) | line_attack(
        occupied,
        position,
        anti_diagonal_of(k),
    )
}

/// The squares a pawn of side `c` on `position` attacks.
pub open spec fn pawn_attack(c: Color, position: u64) -> u64 {
    match c {
        Color::White => white_pawn_attack(position),
        Color::Black => black_pawn_attack(position),
    }
}

/// The squares a pawn on `position` can go to: one square forward when it
/// is empty, two from its starting rank when both are empty, and the squares
/// of the opponent it attacks.
pub open spec fn pawn_targets(b: Board, position: u64) -> u64 {
    if position & b.white != 0 {
        let one = north(position) & b.empty;
        let two = north(one) & b.empty & RANK_4;
        one | two | (white_pawn_attack(position) & b.black)
    } else {
        let one = south(position) & b.empty;
        let two = south(one) & b.empty & RANK_5;
        one | two | (black_pawn_attack(position) & b.white)
    }
}

/// The squares the piece on the single square `position` can go to when
/// check is not considered: those its kind reaches, not held by its own side
/// and not holding a king.
pub open spec fn piece_targets(b: Board, position: u64) -> u64 {
    let own = own_side(b, position);
    let occupied = b.occupied();
    let reach = match b.piece_on(position) {
        Piece::Pawn => pawn_targets(b, position),
        Piece::Knight => knight_attack(position) & !own,
        Piece::Rook => rook_attack(occupied, position) & !own,
        Piece::Bishop => bishop_attack(occupied, position) & !own,
        Piece::Queen => (rook_attack(occupied, position) | bishop_attack(occupied, position))
            & !own,
        Piece::King => king_attack(position) & !own,
    };
    reach & !b.king
}

/// The pieces of side `a` that attack the single square `q`: a knight, king
/// or pawn of `a` standing where such a piece on `q` would attack, a rook or
/// queen on a square a rook on `q` reaches, a bishop or queen on a square a
/// bishop on `q` reaches.
pub open spec fn attackers(b: Board, q: u64, a: Color) -> u64 {
    let occupied = b.occupied();
    b.side(a) & ((knight_attack(q) & b.knight) | (king_attack(q) & b.king) | (pawn_attack(
        opponent(a),
        q,
    ) & b.pawn) | (rook_attack(occupied, q) & (b.rook | b.queen)) | (bishop_attack(occupied, q)
        & (b.bishop | b.queen)))
}

/// The king of side `c` is attacked by the other side.
pub open spec fn in_check(b: Board, c: Color) -> bool {
    attackers(b, b.king & b.side(c), opponent(c)) != 0
}

/// The piece on `position` may go to the single square `target`: it reaches
/// it, and its own king is not attacked afterwards.
pub open spec fn is_legal(b: Board, position: u64, target: u64, promotion: Piece) -> bool {
    &&& is_square(target)
    &&& target & piece_targets(b, position) != 0
    &&& !in_check(apply_move(b, position, target, promotion), b.color_on(position))
}

/// The squares with index below `n` the piece on `position` may legally go to.
pub open spec fn legal_below(b: Board, position: u64, promotion: Piece, n: nat) -> u64
    decreases n,
{
    if n == 0 {
        0
    } else {
        let t = square((n - 1) as u64);
        legal_below(b, position, promotion, (n - 1) as nat) | (if is_legal(
            b,
            position,
            t,
            promotion,
        ) {
            t
        } else {
            0
        })
    }
}

/// The squares the piece on `position` may legally go to.
pub open spec fn legal_targets(b: Board, position: u64, promotion: Piece) -> u64 {
    legal_below(b, position, promotion, 64)
}

/// A piece of side `c` on a square with index below `n` has a legal move.
pub open spec fn has_move_below(b: Board, c: Color, promotion: Piece, n: nat) -> bool
    decreases n,
{
    n > 0 && (has_move_below(b, c, promotion, (n - 1) as nat) || {
        let p = square((n - 1) as u64);
        p & b.side(c) != 0 && legal_targets(b, p, promotion) != 0
    })
}

/// Side `c` has a legal move.
pub open spec fn has_legal_move(b: Board, c: Color, promotion: Piece) -> bool {
    has_move_below(b, c, promotion, 64)
}

/// The state of the game when side `c` is to move: over when it has no legal
/// move (checkmate or stalemate), check when its king is attacked, in
/// progress otherwise.
pub open spec fn state_after(b: Board, c: Color, promotion: Piece) -> GameState {
    if !has_legal_move(b, c, promotion) {
        GameState::GameOver
    } else if in_check(b, c) {
        GameState::Check
    } else {
        GameState::InProgress
    }
}

/// A sliding piece on the single square `position` reaches exactly the
/// single squares `x` of `line` with no occupied square of `line` strictly
/// between.
pub proof fn lemma_line_reaches(occupied: u64, position: u64, line: u64, x: u64)
    requires
        is_square(position),
        is_square(x),
        x != position,
        x & line != 0,
    ensures
        (line_attack(occupied, position, line) & x != 0) == clear_between(
            occupied & line,
            position,
            x,
        ),
{
    lemma_slide_reaches(occupied & line, position, x);
    let s = slide(occupied & line, position);
    assert(x != 0 && x & ((x - 1) as u64) == 0 && x & line != 0 ==> ((s & line) & x != 0) == (s & x
        != 0)) by (bit_vector);
}

/// The owner of a piece on an occupied single square is the side whose board
/// meets it.
pub proof fn lemma_side_of_owner(b: Board, position: u64)
    requires
        b.white & b.black == 0,
        is_square(position),
        position & b.occupied() != 0,
    ensures
        position & b.side(b.color_on(position)) != 0,
        own_side(b, position) == b.side(b.color_on(position)),
{
    let (w, k, p) = (b.white, b.black, position);
    assert(p & (w | k) != 0 && p & w == 0 ==> p & k != 0) by (bit_vector);
}

/// A single square meeting the board of side `c` is owned by `c`.
pub(crate) proof fn lemma_side_occupied(b: Board, position: u64, c: Color)
    requires
        b.white & b.black == 0,
        is_square(position),
    ensures
        position & b.side(c) != 0 ==> position & b.occupied() != 0 && b.color_on(position) == c,
{
    let (w, k, p) = (b.white, b.black, position);
    assert(w & k == 0 && p != 0 && p & ((p - 1) as u64) == 0 ==> (p & w != 0 ==> p & (w | k) != 0)
        && (p & k != 0 ==> p & (w | k) != 0 && p & w == 0)) by (bit_vector);
}

/// Having a move among the squares below `n` stays true for more squares.
proof fn lemma_has_move_grows(b: Board, c: Color, promotion: Piece, n: nat, m: nat)
    requires
        n <= m,
        has_move_below(b, c, promotion, n),
    ensures
        has_move_below(b, c, promotion, m),
    decreases m - n,
{
    if n < m {
        lemma_has_move_grows(b, c, promotion, n + 1, m);
    }
}

/// Facts about single squares and the union that builds `legal_below`.
proof fn lemma_square_bits()
    ensures
        forall|x: u64| #[trigger] (x | 0u64) == x,
        forall|z: u64| #[trigger] (0u64 & z) == 0,
        forall|x: u64, y: u64, z: u64|
            #![trigger (x | y) & z]
            ((x | y) & z != 0) == (x & z != 0 || y & z != 0),
{
    assert forall|x: u64| #[trigger] (x | 0u64) == x by {
        lemma_or_and(x, 0, 0);
    }
    assert forall|z: u64| #[trigger] (0u64 & z) == 0 by {
        lemma_or_and(0, 0, z);
    }
    assert forall|x: u64, y: u64, z: u64|
        #![trigger (x | y) & z]
        ((x | y) & z != 0) == (x & z != 0 || y & z != 0) by {
        lemma_or_and(x, y, z);
    }
}

/// Two squares meet exactly when they are the same square.
proof fn lemma_squares_meet(a: u64, b: u64)
    requires
        a < 64,
        b < 64,
    ensures
        (square(a) & square(b) != 0) == (a == b),
{
    assert(a < 64 && b < 64 ==> (((1u64 << a) & (1u64 << b) != 0) == (a == b))) by (bit_vector);
}

/// `legal_below(n)` holds exactly the legal squares with index below `n`.
pub(crate) proof fn lemma_legal_below(b: Board, position: u64, promotion: Piece, n: nat, j: u64)
    requires
        n <= 64,
        j < 64,
    ensures
        (legal_below(b, position, promotion, n) & square(j) != 0) == (j < n && is_legal(
            b,
            position,
            square(j),
            promotion,
        )),
    decreases n,
{
    lemma_square_bits();
    if n > 0 {
        let k = (n - 1) as u64;
        lemma_legal_below(b, position, promotion, (n - 1) as nat, j);
        lemma_squares_meet(k, j);
    }
}

/// A single square among the legal targets is a legal move: it holds
/// neither a piece of the mover's side nor a king.
pub proof fn lemma_legal_target(b: Board, position: u64, target: u64, promotion: Piece)
    requires
        b.is_valid(),
        is_square(target),
        target & legal_targets(b, position, promotion) != 0,
    ensures
        is_legal(b, position, target, promotion),
        target & own_side(b, position) == 0,
        target & b.king == 0,
{
    lemma_square_index(target);
    let j = square_index(target);
    lemma_legal_below(b, position, promotion, 64, j);
    lemma_targets_avoid(b, position);
    let l = legal_targets(b, position, promotion);
    lemma_or_and(target, l, 0);
    let (x, own, kings, r) = (
        target,
        own_side(b, position),
        b.king,
        piece_targets(b, position),
    );
    assert(x != 0 && x & ((x - 1) as u64) == 0 && x & r != 0 && r & own == 0 && r & kings == 0
        ==> x & own == 0 && x & kings == 0) by (bit_vector);
}

/// The targets of a piece avoid its own side and the kings.
proof fn lemma_targets_avoid(b: Board, position: u64)
    requires
        b.white & b.black == 0,
        b.empty == !(b.white | b.black),
    ensures
        piece_targets(b, position) & own_side(b, position) == 0,
        piece_targets(b, position) & b.king == 0,
{
    let (w, k, e, own, kings) = (b.white, b.black, b.empty, own_side(b, position), b.king);
    let p = pawn_targets(b, position);
    let r = piece_targets(b, position);
    assert(forall|y: u64| #![trigger y & !own] (y & !own) & own == 0) by {
        assert forall|y: u64| #![trigger y & !own] (y & !own) & own == 0 by {
            assert((y & !own) & own == 0) by (bit_vector);
        }
    }
    assert(forall|y: u64| #![trigger y & !kings] (y & !kings) & kings == 0 && ((y & !kings) & own
        == 0 <== y & own == 0)) by {
        assert forall|y: u64| #![trigger y & !kings] (y & !kings) & kings == 0 && ((y & !kings)
            & own == 0 <== y & own == 0) by {
            assert((y & !kings) & kings == 0 && (y & own == 0 ==> (y & !kings) & own == 0))
                by (bit_vector);
        }
    }
    if b.piece_on(position) == Piece::Pawn {
        if position & w != 0 {
            let (a, c, d) = (
                north(position),
                north(north(position) & e),
                white_pawn_attack(position),
            );
            assert(((a & e) | (c & e & 0x0000_0000_ff00_0000u64) | (d & k)) & w == 0)
                by (bit_vector)
                requires
                    w & k == 0,
                    e == !(w | k),
            ;
        } else if position & k != 0 {
            let (a, c, d) = (
                south(position),
                south(south(position) & e),
                black_pawn_attack(position),
            );
            assert(((a & e) | (c & e & 0x0000_00ff_0000_0000u64) | (d & w)) & k == 0)
                by (bit_vector)
                requires
                    w & k == 0,
                    e == !(w | k),
            ;
        } else {
            assert(p & 0u64 == 0) by (bit_vector);
        }
    }
}

/// The second rank, from which a white pawn may push two squares.
pub const RANK_2: u64 = 0x0000_0000_0000_ff00;

/// The seventh rank, from which a black pawn may push two squares.
pub const RANK_7: u64 = 0x00ff_0000_0000_0000;

/// No square of `occupied` lies strictly between the squares `k` and `j` on
/// the rank of `k`.
pub open spec fn rank_clear(occupied: u64, k: u64, j: u64) -> bool {
    forall|m: u64|
        m < 64 && between(k, m, j) && rank_index(m) == rank_index(k) ==> !#[trigger] has_bit(
            occupied,
            m,
        )
}

/// No square of `occupied` lies strictly between the squares `k` and `j` on
/// the file of `k`.
pub open spec fn file_clear(occupied: u64, k: u64, j: u64) -> bool {
    forall|m: u64|
        m < 64 && between(k, m, j) && file_index(m) == file_index(k) ==> !#[trigger] has_bit(
            occupied,
            m,
        )
}

/// No square of `occupied` lies strictly between the squares `k` and `j` on
/// the diagonal of `k` on which rank plus file is constant.
pub open spec fn diagonal_clear(occupied: u64, k: u64, j: u64) -> bool {
    forall|m: u64|
        m < 64 && between(k, m, j) && rank_index(m) + file_index(m) == rank_index(k) + file_index(
            k,
        ) ==> !#[trigger] has_bit(occupied, m)
}

/// No square of `occupied` lies strictly between the squares `k` and `j` on
/// the diagonal of `k` on which rank minus file is constant.
pub open spec fn anti_diagonal_clear(occupied: u64, k: u64, j: u64) -> bool {
    forall|m: u64|
        m < 64 && between(k, m, j) && rank_index(m) - file_index(m) == rank_index(k) - file_index(
            k,
        ) ==> !#[trigger] has_bit(occupied, m)
}

/// The square `j` shares a rank or a file with the square `k`, with no square
/// of `occupied` strictly between the two on it.
pub open spec fn rook_line(occupied: u64, k: u64, j: u64) -> bool {
    ||| rank_index(j) == rank_index(k) && rank_clear(occupied, k, j)
    ||| file_index(j) == file_index(k) && file_clear(occupied, k, j)
}

/// The square `j` shares a diagonal with the square `k`, with no square of
/// `occupied` strictly between the two on it.
pub open spec fn bishop_line(occupied: u64, k: u64, j: u64) -> bool {
    ||| rank_index(j) + file_index(j) == rank_index(k) + file_index(k) && diagonal_clear(
        occupied,
        k,
        j,
    )
    ||| rank_index(j) - file_index(j) == rank_index(k) - file_index(k) && anti_diagonal_clear(
        occupied,
        k,
        j,
    )
}

/// The piece on the square `s` attacks the square `q` by the moves of its
/// kind: a pawn diagonally forward, a knight by a jump, a king by a step,
/// a rook, bishop or queen along an open line of its own.
pub open spec fn attacks_from(b: Board, s: u64, q: u64) -> bool {
    let occupied = b.occupied();
    match b.piece_on(square(s)) {
        Piece::Pawn => diagonal_step(s, q, b.color_on(square(s)) == Color::White),
        Piece::Knight => knight_jump(s, q),
        Piece::King => king_step(s, q),
        Piece::Rook => rook_line(occupied, q, s),
        Piece::Bishop => bishop_line(occupied, q, s),
        Piece::Queen => rook_line(occupied, q, s) || bishop_line(occupied, q, s),
    }
}

/// The square `j` is a move of a pawn on the square `k` when the board is
/// `b`, check aside: one square forward onto an empty square, two from its
/// starting rank over and onto empty squares, or one diagonally forward onto
/// a piece of the other side. Forward is up for white, down for black.
pub open spec fn pawn_reaches(b: Board, k: u64, j: u64, white: bool) -> bool {
    if white {
        ||| j == k + 8 && has_bit(b.empty, j)
        ||| j == k + 16 && rank_index(k) == 1 && has_bit(b.empty, (k + 8) as u64) && has_bit(
            b.empty,
            j,
        )
        ||| diagonal_step(k, j, true) && has_bit(b.black, j)
    } else {
        ||| j + 8 == k && has_bit(b.empty, j)
        ||| j + 16 == k && rank_index(k) == 6 && has_bit(b.empty, (k - 8) as u64) && has_bit(
            b.empty,
            j,
        )
        ||| diagonal_step(k, j, false) && has_bit(b.white, j)
    }
}

/// The square `j` is a move of the piece on the square `k` by the moves of
/// its kind, check aside and before the squares of its own side and the
/// kings are taken out.
pub open spec fn piece_reaches(b: Board, k: u64, j: u64) -> bool {
    let occupied = b.occupied();
    match b.piece_on(square(k)) {
        Piece::Pawn => pawn_reaches(b, k, j, square(k) & b.white != 0),
        Piece::Knight => knight_jump(k, j),
        Piece::King => king_step(k, j),
        Piece::Rook => rook_line(occupied, k, j),
        Piece::Bishop => bishop_line(occupied, k, j),
        Piece::Queen => rook_line(occupied, k, j) || bishop_line(occupied, k, j),
    }
}

/// A sliding piece on the square `k` reaches, along the line whose squares
/// are those `on_line` holds of, exactly the squares `j` of the line with no
/// square of `occupied` strictly between on the line.
proof fn lemma_line_squares(
    occupied: u64,
    line: u64,
    k: u64,
    j: u64,
    on_line: spec_fn(u64) -> bool,
)
    requires
        k < 64,
        j < 64,
        k != j,
        forall|m: u64| m < 64 ==> #[trigger] has_bit(line, m) == on_line(m),
    ensures
        (line_attack(occupied, square(k), line) & square(j) != 0) == (on_line(j) && forall|m: u64|
            m < 64 && between(k, m, j) && on_line(m) ==> !#[trigger] has_bit(occupied, m)),
{
    let (p, x) = (square(k), square(j));
    lemma_square_is_square(k);
    lemma_square_is_square(j);
    if p == x {
        lemma_square_injective(k, j);
    }
    lemma_square_meets(line, j);
    lemma_or_and(x, line, 0);
    assert(has_bit(line, j) == on_line(j));
    if on_line(j) {
        lemma_line_reaches(occupied, p, line, x);
        lemma_clear_between_bits(occupied & line, k, j);
        assert forall|m: u64| m < 64 implies #[trigger] has_bit(occupied & line, m) == (has_bit(
            occupied,
            m,
        ) && on_line(m)) by {
            lemma_bit_facts(occupied, line, m);
        }
        let on_bits = forall|m: u64|
            m < 64 && between(k, m, j) ==> !#[trigger] has_bit(occupied & line, m);
        let on_squares = forall|m: u64|
            m < 64 && between(k, m, j) && on_line(m) ==> !#[trigger] has_bit(occupied, m);
        if on_bits {
            assert forall|m: u64| m < 64 && between(k, m, j) && on_line(m) implies !has_bit(
                occupied,
                m,
            ) by {
                assert(!has_bit(occupied & line, m));
            }
        }
        if on_squares {
            assert forall|m: u64| m < 64 && between(k, m, j) implies !has_bit(occupied & line, m) by {
                if on_line(m) {
                    assert(!has_bit(occupied, m));
                }
            }
        }
    } else {
        lemma_or_and(slide(occupied & line, p), line, x);
    }
}

/// A rook on the square `k` attacks another square `j` exactly when `j` is on
/// its rank or its file with no occupied square strictly between the two.
pub proof fn lemma_rook_attack(occupied: u64, k: u64, j: u64)
    requires
        k < 64,
        j < 64,
        k != j,
    ensures
        (rook_attack(occupied, square(k)) & square(j) != 0) == rook_line(occupied, k, j),
{
    lemma_square_is_square(k);
    lemma_square_index(square(k));
    lemma_square_injective(square_index(square(k)), k);
    let (r, f) = (rank_of(k), file_of(k));
    assert forall|m: u64| m < 64 implies #[trigger] has_bit(r, m) == (rank_index(m) == rank_index(
        k,
    )) by {
        lemma_rank_masks(rank_index(k), m);
    }
    assert forall|m: u64| m < 64 implies #[trigger] has_bit(f, m) == (file_index(m) == file_index(
        k,
    )) by {
        lemma_file_masks(file_index(k), m);
    }
    lemma_line_squares(occupied, r, k, j, |m: u64| rank_index(m) == rank_index(k));
    lemma_line_squares(occupied, f, k, j, |m: u64| file_index(m) == file_index(k));
    lemma_or_and(line_attack(occupied, square(k), r), line_attack(occupied, square(k), f), square(j));
}

/// A bishop on the square `k` attacks another square `j` exactly when `j` is
/// on one of its diagonals with no occupied square strictly between the two.
pub proof fn lemma_bishop_attack(occupied: u64, k: u64, j: u64)
    requires
        k < 64,
        j < 64,
        k != j,
    ensures
        (bishop_attack(occupied, square(k)) & square(j) != 0) == bishop_line(occupied, k, j),
{
    lemma_square_is_square(k);
    lemma_square_index(square(k));
    lemma_square_injective(square_index(square(k)), k);
    let (d, a) = (diagonal_of(k), anti_diagonal_of(k));
    assert forall|m: u64| m < 64 implies #[trigger] has_bit(d, m) == (rank_index(m) + file_index(m)
        == rank_index(k) + file_index(k)) by {
        lemma_diagonal_masks(rank_index(k) + file_index(k), m);
    }
    assert forall|m: u64| m < 64 implies #[trigger] has_bit(a, m) == (rank_index(m) - file_index(m)
        == rank_index(k) - file_index(k)) by {
        lemma_anti_diagonal_masks(rank_index(k) - file_index(k) + 7, m);
    }
    lemma_line_squares(
        occupied,
        d,
        k,
        j,
        |m: u64| rank_index(m) + file_index(m) == rank_index(k) + file_index(k),
    );
    lemma_line_squares(
        occupied,
        a,
        k,
        j,
        |m: u64| rank_index(m) - file_index(m) == rank_index(k) - file_index(k),
    );
    lemma_or_and(line_attack(occupied, square(k), d), line_attack(occupied, square(k), a), square(j));
}

/// The piece on the square `k` may go, check aside, to another square `j`
/// exactly when its kind reaches `j` and `j` holds neither a piece of its own
/// side nor a king.
pub proof fn lemma_piece_targets(b: Board, k: u64, j: u64)
    requires
        b.is_valid(),
        k < 64,
        j < 64,
        k != j,
    ensures
        (piece_targets(b, square(k)) & square(j) != 0) == (piece_reaches(b, k, j) && !has_bit(
            own_side(b, square(k)),
            j,
        ) && !has_bit(b.king, j)),
{
    let (p, x) = (square(k), square(j));
    let occupied = b.occupied();
    let own = own_side(b, p);
    let t = piece_targets(b, p);
    lemma_targets_avoid(b, p);
    lemma_square_meets(t, j);
    lemma_or_and(t, x, 0);
    lemma_bit_facts(t, own, j);
    lemma_bit_facts(t & own, t & own, j);
    let reach = match b.piece_on(p) {
        Piece::Pawn => pawn_targets(b, p),
        Piece::Knight => knight_attack(p) & !own,
        Piece::Rook => rook_attack(occupied, p) & !own,
        Piece::Bishop => bishop_attack(occupied, p) & !own,
        Piece::Queen => (rook_attack(occupied, p) | bishop_attack(occupied, p)) & !own,
        Piece::King => king_attack(p) & !own,
    };
    assert(t == reach & !b.king);
    lemma_bit_facts(reach, !b.king, j);
    lemma_bit_facts(b.king, b.king, j);
    assert(has_bit(t, j) == (has_bit(reach, j) && !has_bit(b.king, j)));
    if b.piece_on(p) == Piece::Pawn {
        lemma_pawn_targets(b, k, j);
        lemma_square_meets(reach, j);
        lemma_or_and(reach, x, 0);
        assert(has_bit(reach, j) == pawn_reaches(b, k, j, p & b.white != 0));
    } else {
        let r = match b.piece_on(p) {
            Piece::Knight => knight_attack(p),
            Piece::Rook => rook_attack(occupied, p),
            Piece::Bishop => bishop_attack(occupied, p),
            Piece::Queen => rook_attack(occupied, p) | bishop_attack(occupied, p),
            _ => king_attack(p),
        };
        assert(reach == r & !own);
        lemma_bit_facts(r, !own, j);
        lemma_bit_facts(own, own, j);
        lemma_square_meets(r, j);
        lemma_or_and(r, x, 0);
        assert(has_bit(reach, j) == (has_bit(r, j) && !has_bit(own, j)));
        lemma_knight_attack(k, j);
        lemma_king_attack(k, j);
        lemma_rook_attack(occupied, k, j);
        lemma_bishop_attack(occupied, k, j);
        lemma_or_and(rook_attack(occupied, p), bishop_attack(occupied, p), x);
        assert(has_bit(r, j) == piece_reaches(b, k, j));
    }
}

/// The piece on `position` has a legal move exactly when some single square
/// is a legal target of it.
pub proof fn lemma_targets_nonempty(b: Board, position: u64, promotion: Piece)
    ensures
        (legal_targets(b, position, promotion) != 0) == (exists|j: u64|
            j < 64 && #[trigger] is_legal(b, position, square(j), promotion)),
{
    let l = legal_targets(b, position, promotion);
    lemma_empty_iff_no_bits(l);
    if l != 0 {
        let j = choose|j: u64| j < 64 && #[trigger] has_bit(l, j);
        lemma_square_meets(l, j);
        lemma_or_and(square(j), l, 0);
        lemma_legal_below(b, position, promotion, 64, j);
        assert(is_legal(b, position, square(j), promotion));
    } else if exists|j: u64| j < 64 && #[trigger] is_legal(b, position, square(j), promotion) {
        let j = choose|j: u64| j < 64 && #[trigger] is_legal(b, position, square(j), promotion);
        lemma_legal_below(b, position, promotion, 64, j);
        lemma_or_and(0, 0, square(j));
    }
}

/// `has_move_below(n)` holds exactly when a piece of `c` on a square with
/// index below `n` has a legal target.
proof fn lemma_has_move_below(b: Board, c: Color, promotion: Piece, n: nat)
    requires
        n <= 64,
    ensures
        has_move_below(b, c, promotion, n) == (exists|k: u64, j: u64|
            k < n && j < 64 && square(k) & b.side(c) != 0 && #[trigger] is_legal(
                b,
                square(k),
                square(j),
                promotion,
            )),
    decreases n,
{
    if n > 0 {
        let k0 = (n - 1) as u64;
        lemma_has_move_below(b, c, promotion, (n - 1) as nat);
        lemma_targets_nonempty(b, square(k0), promotion);
        if has_move_below(b, c, promotion, n) {
            if has_move_below(b, c, promotion, (n - 1) as nat) {
                let (k, j) = choose|k: u64, j: u64|
                    k < n - 1 && j < 64 && square(k) & b.side(c) != 0 && #[trigger] is_legal(
                        b,
                        square(k),
                        square(j),
                        promotion,
                    );
                assert(k < n && j < 64 && square(k) & b.side(c) != 0 && is_legal(
                    b,
                    square(k),
                    square(j),
                    promotion,
                ));
            } else {
                let j = choose|j: u64| j < 64 && #[trigger] is_legal(b, square(k0), square(j), promotion);
                assert(k0 < n && j < 64 && square(k0) & b.side(c) != 0 && is_legal(
                    b,
                    square(k0),
                    square(j),
                    promotion,
                ));
            }
        } else if exists|k: u64, j: u64|
            k < n && j < 64 && square(k) & b.side(c) != 0 && #[trigger] is_legal(
                b,
                square(k),
                square(j),
                promotion,
            ) {
            let (k, j) = choose|k: u64, j: u64|
                k < n && j < 64 && square(k) & b.side(c) != 0 && #[trigger] is_legal(
                    b,
                    square(k),
                    square(j),
                    promotion,
                );
            if k == k0 {
                assert(is_legal(b, square(k0), square(j), promotion));
            } else {
                assert(k < n - 1);
            }
        }
    }
}

/// Side `c` has a legal move exactly when some piece of `c`, on some single
/// square, may legally go to some single square.
pub proof fn lemma_has_legal_move(b: Board, c: Color, promotion: Piece)
    ensures
        has_legal_move(b, c, promotion) == (exists|k: u64, j: u64|
            k < 64 && j < 64 && square(k) & b.side(c) != 0 && #[trigger] is_legal(
                b,
                square(k),
                square(j),
                promotion,
            )),
{
    lemma_has_move_below(b, c, promotion, 64);
}

/// The state of the game for side `c` to move: over exactly when `c` has no
/// legal move, check exactly when it has one and its king is attacked, in
/// progress exactly when it has one and its king is not attacked.
pub proof fn lemma_state_after(b: Board, c: Color, promotion: Piece)
    ensures
        (state_after(b, c, promotion) == GameState::GameOver) == !has_legal_move(b, c, promotion),
        (state_after(b, c, promotion) == GameState::Check) == (has_legal_move(b, c, promotion)
            && in_check(b, c)),
        (state_after(b, c, promotion) == GameState::InProgress) == (has_legal_move(
            b,
            c,
            promotion,
        ) && !in_check(b, c)),
{
}

/// Which of the five kinds of attack in `attackers` can reach the single
/// square `sq` of side board `sd`: only the one of the kind of the piece on it.
proof fn lemma_one_attacker(
    sq: u64,
    sd: u64,
    w: u64,
    k: u64,
    pw: u64,
    kn: u64,
    bi: u64,
    ro: u64,
    qu: u64,
    ki: u64,
    a1: u64,
    a2: u64,
    a3: u64,
    a4: u64,
    a5: u64,
)
    by (bit_vector)
    requires
        is_square(sq),
        sq & sd != 0,
        sd == w || sd == k,
        pw | kn | bi | ro | qu | ki == w | k,
        pw & kn == 0 && pw & bi == 0 && pw & ro == 0 && pw & qu == 0 && pw & ki == 0,
        kn & bi == 0 && kn & ro == 0 && kn & qu == 0 && kn & ki == 0,
        bi & ro == 0 && bi & qu == 0 && bi & ki == 0,
        ro & qu == 0 && ro & ki == 0,
        qu & ki == 0,
    ensures
        sq & pw != 0 ==> (((sd & ((a1 & kn) | (a2 & ki) | (a3 & pw) | (a4 & (ro | qu)) | (a5 & (bi
            | qu)))) & sq != 0) == (a3 & sq != 0)),
        sq & kn != 0 ==> (((sd & ((a1 & kn) | (a2 & ki) | (a3 & pw) | (a4 & (ro | qu)) | (a5 & (bi
            | qu)))) & sq != 0) == (a1 & sq != 0)),
        sq & ro != 0 ==> (((sd & ((a1 & kn) | (a2 & ki) | (a3 & pw) | (a4 & (ro | qu)) | (a5 & (bi
            | qu)))) & sq != 0) == (a4 & sq != 0)),
        sq & bi != 0 ==> (((sd & ((a1 & kn) | (a2 & ki) | (a3 & pw) | (a4 & (ro | qu)) | (a5 & (bi
            | qu)))) & sq != 0) == (a5 & sq != 0)),
        sq & qu != 0 ==> (((sd & ((a1 & kn) | (a2 & ki) | (a3 & pw) | (a4 & (ro | qu)) | (a5 & (bi
            | qu)))) & sq != 0) == (a4 & sq != 0 || a5 & sq != 0)),
        sq & pw == 0 && sq & kn == 0 && sq & ro == 0 && sq & bi == 0 && sq & qu == 0 ==> (((sd & ((
        a1 & kn) | (a2 & ki) | (a3 & pw) | (a4 & (ro | qu)) | (a5 & (bi | qu)))) & sq != 0) == (a2
            & sq != 0)),
{
}

/// A piece on the square `s` is among the attackers by side `a` of another
/// square `q` exactly when it belongs to `a` and attacks `q` by the moves of
/// its kind.
pub proof fn lemma_attackers(b: Board, a: Color, s: u64, q: u64)
    requires
        b.is_valid(),
        s < 64,
        q < 64,
        s != q,
    ensures
        (attackers(b, square(q), a) & square(s) != 0) == (square(s) & b.side(a) != 0
            && attacks_from(b, s, q)),
{
    lemma_square_is_square(s);
    lemma_square_is_square(q);
    let occupied = b.occupied();
    let x = square(q);
    let (sq, sd, w, k, pw, kn, bi, ro, qu, ki) = (
        square(s),
        b.side(a),
        b.white,
        b.black,
        b.pawn,
        b.knight,
        b.bishop,
        b.rook,
        b.queen,
        b.king,
    );
    let (a1, a2, a3, a4, a5) = (
        knight_attack(x),
        king_attack(x),
        pawn_attack(opponent(a), x),
        rook_attack(occupied, x),
        bishop_attack(occupied, x),
    );
    let y = (a1 & kn) | (a2 & ki) | (a3 & pw) | (a4 & (ro | qu)) | (a5 & (bi | qu));
    lemma_or_and(sd, y, sq);
    lemma_or_and(sd, sq, 0);
    if sq & sd != 0 {
        lemma_one_attacker(sq, sd, w, k, pw, kn, bi, ro, qu, ki, a1, a2, a3, a4, a5);
        lemma_side_occupied(b, sq, a);
        lemma_pawn_attack(q, s);
        lemma_knight_attack(q, s);
        lemma_king_attack(q, s);
        lemma_rook_attack(occupied, q, s);
        lemma_bishop_attack(occupied, q, s);
    }
}

/// A pawn of side `a` on the square `s` is among the attackers by `a` of the
/// square `q` exactly when `q` is diagonally in front of it: one rank up for
/// white, one rank down for black, on a neighbouring file.
pub proof fn lemma_pawn_attackers(b: Board, a: Color, s: u64, q: u64)
    requires
        b.is_valid(),
        s < 64,
        q < 64,
        square(s) & b.pawn & b.side(a) != 0,
    ensures
        (attackers(b, square(q), a) & square(s) != 0) == diagonal_step(s, q, a == Color::White),
{
    lemma_or_and(square(s), b.pawn, b.side(a));
    lemma_square_is_square(s);
    lemma_side_occupied(b, square(s), a);
    if s != q {
        lemma_attackers(b, a, s, q);
    } else {
        lemma_square_is_square(q);
        let x = square(q);
        let occupied = b.occupied();
        let y = (knight_attack(x) & b.knight) | (king_attack(x) & b.king) | (pawn_attack(
            opponent(a),
            x,
        ) & b.pawn) | (rook_attack(occupied, x) & (b.rook | b.queen)) | (bishop_attack(occupied, x)
            & (b.bishop | b.queen));
        lemma_one_attacker(
            x,
            b.side(a),
            b.white,
            b.black,
            b.pawn,
            b.knight,
            b.bishop,
            b.rook,
            b.queen,
            b.king,
            knight_attack(x),
            king_attack(x),
            pawn_attack(opponent(a), x),
            rook_attack(occupied, x),
            bishop_attack(occupied, x),
        );
        lemma_pawn_attack(q, s);
    }
}

/// The king of side `c` is in check exactly when a piece of the other side
/// attacks the king's square by the moves of its kind.
pub proof fn lemma_in_check(b: Board, c: Color)
    requires
        b.is_valid(),
    ensures
        in_check(b, c) == (exists|s: u64|
            s < 64 && square(s) & b.side(opponent(c)) != 0 && #[trigger] attacks_from(
                b,
                s,
                square_index(b.king & b.side(c)),
            )),
{
    let o = opponent(c);
    let king = b.king & b.side(c);
    lemma_square_index(king);
    let kq = square_index(king);
    let v = attackers(b, king, o);
    lemma_empty_iff_no_bits(v);
    lemma_or_and(b.side(c), b.side(o), b.king);
    lemma_or_and(king, b.side(o), 0);
    if in_check(b, c) {
        let m = choose|m: u64| m < 64 && #[trigger] has_bit(v, m);
        lemma_square_meets(v, m);
        lemma_or_and(square(m), v, 0);
        if m == kq {
            let y = (knight_attack(king) & b.knight) | (king_attack(king) & b.king) | (pawn_attack(
                c,
                king,
            ) & b.pawn) | (rook_attack(b.occupied(), king) & (b.rook | b.queen)) | (bishop_attack(
                b.occupied(),
                king,
            ) & (b.bishop | b.queen));
            lemma_or_and(b.side(o), y, king);
            assert(false);
        }
        lemma_attackers(b, o, m, kq);
        assert(square(m) & b.side(o) != 0 && attacks_from(b, m, kq));
    } else {
        if exists|s: u64|
            s < 64 && square(s) & b.side(o) != 0 && #[trigger] attacks_from(b, s, kq) {
            let s = choose|s: u64|
                s < 64 && square(s) & b.side(o) != 0 && #[trigger] attacks_from(b, s, kq);
            lemma_or_and(square(s), b.side(o), 0);
            lemma_attackers(b, o, s, kq);
            lemma_or_and(0, 0, square(s));
        }
    }
}

/// The moves of a pawn, check aside, are exactly those of `pawn_reaches`:
/// forward for the side of the pawn, white when it stands on the white board.
pub proof fn lemma_pawn_targets(b: Board, k: u64, j: u64)
    requires
        k < 64,
        j < 64,
    ensures
        (pawn_targets(b, square(k)) & square(j) != 0) == pawn_reaches(
            b,
            k,
            j,
            square(k) & b.white != 0,
        ),
{
    let (e, w, bk) = (b.empty, b.white, b.black);
    assert(((((north(1u64 << k) & e) | (north(north(1u64 << k) & e) & e & RANK_4) | (
    white_pawn_attack(1u64 << k) & bk)) & (1u64 << j) != 0) == ((j == k + 8 && has_bit(e, j)) || (j
        == k + 16 && k / 8 == 1 && has_bit(e, (k + 8) as u64) && has_bit(e, j)) || (j / 8 == k / 8
        + 1 && (j % 8 == k % 8 + 1 || j % 8 + 1 == k % 8) && has_bit(bk, j)))) && ((((south(1u64
        << k) & e) | (south(south(1u64 << k) & e) & e & RANK_5) | (black_pawn_attack(1u64 << k)
        & w)) & (1u64 << j) != 0) == ((j + 8 == k && has_bit(e, j)) || (j + 16 == k && k / 8 == 6
        && has_bit(e, (k - 8) as u64) && has_bit(e, j)) || (j / 8 + 1 == k / 8 && (j % 8 == k % 8
        + 1 || j % 8 + 1 == k % 8) && has_bit(w, j))))) by (bit_vector)
        requires
            k < 64,
            j < 64,
    ;
}

/// A pawn pushes two squares exactly from its starting rank, and only over
/// an empty square onto an empty square: north for a white pawn, south for
/// a black one.
pub proof fn lemma_pawn_double_push(b: Board, p: u64)
    requires
        is_square(p),
    ensures
        p & b.white != 0 ==> ((pawn_targets(b, p) & north(north(p)) != 0) == (p & RANK_2 != 0
            && north(p) & b.empty != 0 && north(north(p)) & b.empty != 0)),
        p & b.white == 0 ==> ((pawn_targets(b, p) & south(south(p)) != 0) == (p & RANK_7 != 0
            && south(p) & b.empty != 0 && south(south(p)) & b.empty != 0)),
{
    let (e, w, k) = (b.empty, b.white, b.black);
    assert(((((north(p) & e) | (north(north(p) & e) & e & RANK_4) | (white_pawn_attack(p) & k))
        & north(north(p)) != 0) == (p & RANK_2 != 0 && north(p) & e != 0 && north(north(p)) & e
        != 0)) && ((((south(p) & e) | (south(south(p) & e) & e & RANK_5) | (black_pawn_attack(p)
        & w)) & south(south(p)) != 0) == (p & RANK_7 != 0 && south(p) & e != 0 && south(south(p))
        & e != 0))) by (bit_vector)
        requires
            is_square(p),
    ;
}

impl Game {
    /// The entry of `table` for the single square `position`, where entry `i`
    /// is for the square with index `63 - i`; 0 when `position` is not a
    /// single square.
    fn table_entry(table: &[u64; 64], position: u64) -> (r: u64)
        ensures
            forall|i: int| 0 <= i < 64 && table_square(i) == position ==> r == table[i],
            !is_square(position) ==> r == 0,
    {
        let mut entry: u64 = 0;
        let mut iter_bit: u64 = 0x8000_0000_0000_0000;
        proof {
            lemma_square_values();
        }
        for i in 0..64
            invariant
                i < 64 ==> iter_bit == table_square(i as int),
                forall|j: int| 0 <= j < i && table_square(j) == position ==> entry == table[j],
                (forall|j: int| 0 <= j < i ==> table_square(j) != position) ==> entry == 0,
        {
            if iter_bit == position {
                entry = table[i];
                proof {
                    assert forall|j: int|
                        0 <= j < i && table_square(j) == position implies false by {
                        lemma_square_injective((63 - j) as u64, (63 - i) as u64);
                    }
                }
            }
            if i < 63 {
                proof {
                    lemma_square_shr((63 - i) as u64);
                }
            }
            iter_bit >>= 1;
        }
        proof {
            if !is_square(position) {
                assert forall|j: int| 0 <= j < 64 implies table_square(j) != position by {
                    lemma_square_is_square((63 - j) as u64);
                }
            }
        }
        entry
    }

    /// The table entry of a single square is the entry for its index.
    proof fn lemma_table_entry_index(position: u64) -> (i: int)
        requires
            is_square(position),
        ensures
            0 <= i < 64,
            table_square(i) == position,
    {
        lemma_square_index(position);
        63 - square_index(position)
    }

    /// The squares of `line` a sliding piece on `position` reaches.
    fn line_moves(occupied: u64, position: u64, line: u64) -> (r: u64)
        ensures
            r == line_attack(occupied, position, line),
    {
        let o = occupied & line;
        (o.wrapping_sub(position << 1) ^ reverse_bits(
            reverse_bits(o).wrapping_sub(reverse_bits(position) << 1),
        )) & line
    }

    /// The squares a rook on `position` reaches over `occupied`.
    fn rook_reach(&self, occupied: u64, position: u64) -> (r: u64)
        requires
            self.wf(),
            is_square(position),
        ensures
            r == rook_attack(occupied, position),
    {
        let k = Game::get_int_position(position);
        let file = self.file_mask[k % 8];
        let rank = self.rank_mask[k / 8];
        Game::line_moves(occupied, position, rank) | Game::line_moves(occupied, position, file)
    }

    /// The squares a bishop on `position` reaches over `occupied`.
    fn bishop_reach(&self, occupied: u64, position: u64) -> (r: u64)
        requires
            self.wf(),
            is_square(position),
        ensures
            r == bishop_attack(occupied, position),
    {
        let k = Game::get_int_position(position);
        let diagonal_mask = self.diagonal_mask[k / 8 + k % 8];
        let anti_diagonal_mask = self.anti_diagonal_mask[k / 8 + (7 - k % 8)];
        Game::line_moves(occupied, position, diagonal_mask) | Game::line_moves(
            occupied,
            position,
            anti_diagonal_mask,
        )
    }

    /// The squares a rook on `position` can move to: those it reaches along
    /// its rank and file, up to and including the first occupied square each
    /// way, but those of its own side.
    pub fn get_rook_moves(&self, position: u64) -> (r: u64)
        requires
            self.wf(),
            is_square(position),
        ensures
            r == rook_attack(self@.board.occupied(), position) & !own_side(self@.board, position),
    {
        let b = &self.board;
        let own = if position & b.white != 0 {
            b.white
        } else if position & b.black != 0 {
            b.black
        } else {
            0
        };
        self.rook_reach(b.white | b.black, position) & !own
    }

    /// The squares a pawn on `position` can go to.
    fn get_pawn_moves(&self, b: &Board, position: u64) -> (r: u64)
        requires
            self.wf(),
            is_square(position),
        ensures
            r == pawn_targets(*b, position),
    {
        proof {
            lemma_direction_literals();
        }
        if position & b.white != 0 {
            // White: pushes, then captures.
            let one_step_push = Game::one_step("north", position) & b.empty;
            let two_step_push = Game::one_step("north", one_step_push) & b.empty & RANK_4;
            let attacks = Game::table_entry(&self.white_pawn_attacks, position);
            proof {
                let i = Game::lemma_table_entry_index(position);
                assert(self@.white_pawn_attacks[i] == white_pawn_attack(table_square(i)));
                assert(attacks == white_pawn_attack(position));
            }
            one_step_push | two_step_push | (attacks & b.black)
        } else {
            // Black: pushes, then captures.
            let one_step_push = Game::one_step("south", position) & b.empty;
            let two_step_push = Game::one_step("south", one_step_push) & b.empty & RANK_5;
            let attacks = Game::table_entry(&self.black_pawn_attacks, position);
            proof {
                let i = Game::lemma_table_entry_index(position);
                assert(self@.black_pawn_attacks[i] == black_pawn_attack(table_square(i)));
                assert(attacks == black_pawn_attack(position));
            }
            one_step_push | two_step_push | (attacks & b.white)
        }
    }

    /// The squares the piece on the single square `position` can go to when
    /// check is not considered.
    fn piece_moves(&self, b: &Board, position: u64) -> (r: u64)
        requires
            self.wf(),
            is_square(position),
        ensures
            r == piece_targets(*b, position),
    {
        let own = if position & b.white != 0 {
            b.white
        } else if position & b.black != 0 {
            b.black
        } else {
            0
        };
        let occupied = b.white | b.black;
        let i = Game::table_index(position);
        let reach = match b.piece_at(position) {
            Piece::Pawn => self.get_pawn_moves(b, position),
            Piece::Knight => self.knight_moves[i] & !own,
            Piece::Rook => self.rook_reach(occupied, position) & !own,
            Piece::Bishop => self.bishop_reach(occupied, position) & !own,
            Piece::Queen => (self.rook_reach(occupied, position) | self.bishop_reach(
                occupied,
                position,
            )) & !own,
            Piece::King => self.king_moves[i] & !own,
        };
        reach & !b.king
    }

    /// The entry index of the single square `position` in the move tables.
    fn table_index(position: u64) -> (i: usize)
        requires
            is_square(position),
        ensures
            i < 64,
            table_square(i as int) == position,
    {
        63 - Game::get_int_position(position)
    }

    /// The pieces of side `a` attacking the single square `q` (see
    /// `attackers`).
    fn attacks_to(&self, b: &Board, q: u64, a: Color) -> (r: u64)
        requires
            self.wf(),
            is_square(q),
        ensures
            r == attackers(*b, q, a),
    {
        let occupied = b.white | b.black;
        let i = Game::table_index(q);
        let pawns = match a {
            Color::White => self.black_pawn_attacks[i],
            Color::Black => self.white_pawn_attacks[i],
        };
        b.side_bits(a) & ((self.knight_moves[i] & b.knight) | (self.king_moves[i] & b.king) | (
        pawns & b.pawn) | (self.rook_reach(occupied, q) & (b.rook | b.queen)) | (self.bishop_reach(
            occupied,
            q,
        ) & (b.bishop | b.queen)))
    }

    /// Whether the king of side `c` is attacked.
    fn is_in_check(&self, b: &Board, c: Color) -> (r: bool)
        requires
            self.wf(),
            b.is_valid(),
        ensures
            r == in_check(*b, c),
    {
        let king = b.king & b.side_bits(c);
        self.attacks_to(b, king, c.other()) != 0
    }

    /// The squares the piece on the occupied single square `position` may
    /// legally go to.
    pub(crate) fn legal_targets(&self, b: &Board, position: u64) -> (r: u64)
        requires
            self.wf(),
            b.is_valid(),
            is_square(position),
            position & b.occupied() != 0,
        ensures
            r == legal_targets(*b, position, self@.promotion),
    {
        let targets = self.piece_moves(b, position);
        let side = if position & b.white != 0 {
            Color::White
        } else {
            Color::Black
        };
        let mut legal: u64 = 0;
        let mut target: u64 = 1;
        proof {
            lemma_square_values();
            lemma_targets_avoid(*b, position);
        }
        for k in 0..64
            invariant
                self.wf(),
                b.is_valid(),
                is_square(position),
                position & b.occupied() != 0,
                targets == piece_targets(*b, position),
                side == b.color_on(position),
                piece_targets(*b, position) & own_side(*b, position) == 0,
                piece_targets(*b, position) & b.king == 0,
                k < 64 ==> target == square(k as u64),
                legal == legal_below(*b, position, self@.promotion, k as nat),
        {
            let ghost before = legal;
            proof {
                lemma_square_is_square(k as u64);
            }
            if target & targets != 0 {
                let mut after = *b;
                let promotion = self.promotion;
                proof {
                    let (x, r, own, kings) = (target, targets, own_side(*b, position), b.king);
                    assert(x != 0 && x & ((x - 1) as u64) == 0 && x & r != 0 && r & own == 0 && r
                        & kings == 0 ==> x & own == 0 && x & kings == 0) by (bit_vector);
                    lemma_side_of_owner(*b, position);
                    lemma_move_keeps_valid(*b, position, target, promotion);
                }
                after.move_piece(position, target, promotion);
                if !self.is_in_check(&after, side) {
                    legal = legal | target;
                }
            }
            proof {
                lemma_square_bits();
            }
            if k < 63 {
                proof {
                    lemma_square_shl(k as u64);
                }
                target = target << 1;
            }
        }
        legal
    }

    /// Whether side `c` has a legal move.
    fn has_legal_move(&self, b: &Board, c: Color) -> (r: bool)
        requires
            self.wf(),
            b.is_valid(),
        ensures
            r == has_legal_move(*b, c, self@.promotion),
    {
        let mut square_bit: u64 = 1;
        proof {
            lemma_square_values();
        }
        for k in 0..64
            invariant
                self.wf(),
                b.is_valid(),
                k < 64 ==> square_bit == square(k as u64),
                !has_move_below(*b, c, self@.promotion, k as nat),
        {
            proof {
                lemma_square_is_square(k as u64);
                lemma_side_occupied(*b, square_bit, c);
            }
            if square_bit & b.side_bits(c) != 0 {
                if self.legal_targets(b, square_bit) != 0 {
                    proof {
                        assert(has_move_below(*b, c, self@.promotion, (k + 1) as nat));
                        lemma_has_move_grows(*b, c, self@.promotion, (k + 1) as nat, 64);
                    }
                    return true;
                }
            }
            if k < 63 {
                proof {
                    lemma_square_shl(k as u64);
                }
                square_bit = square_bit << 1;
            }
        }
        false
    }

    /// The state of the game when side `c` is to move (see `state_after`).
    pub(crate) fn state_after(&self, b: &Board, c: Color) -> (r: GameState)
        requires
            self.wf(),
            b.is_valid(),
        ensures
            r == state_after(*b, c, self@.promotion),
    {
        if !self.has_legal_move(b, c) {
            GameState::GameOver
        } else if self.is_in_check(b, c) {
            GameState::Check
        } else {
            GameState::InProgress
        }
    }

    /// If a piece stands on the single square `position`, the squares it may
    /// legally move to (its own king is not left attacked), each as a
    /// single-square board, from h8 down to a1; no square otherwise. En
    /// passant and castling are not played.
    pub fn get_possible_moves(&mut self, position: u64) -> (r: Vec<u64>)
        requires
            old(self).wf(),
        ensures
            *final(self) == *old(self),
            is_square(position) && position & old(self)@.board.occupied() != 0 ==> r@
                == squares_from(legal_targets(old(self)@.board, position, old(self)@.promotion), 64),
            !(is_square(position) && position & old(self)@.board.occupied() != 0) ==> r@.len()
                == 0,
            forall|i: int| 0 <= i < r@.len() ==> is_legal(old(self)@.board, position, #[trigger] r@[i], old(self)@.promotion),
            forall|i: int, j: int| 0 <= i < j < r@.len() ==> r@[i] > r@[j],
            forall|t: u64|
                is_square(position) && position & old(self)@.board.occupied() != 0 && is_legal(
                    old(self)@.board,
                    position,
                    t,
                    old(self)@.promotion,
                ) ==> r@.contains(t),
    {
        let mut moves: Vec<u64> = Vec::new();
        if !(position != 0 && position & (position - 1) == 0) {
            return moves;
        }
        if position & (self.board.white | self.board.black) == 0 {
            return moves;
        }
        let moves_pattern = self.legal_targets(&self.board, position);
        let mut iter_bit: u64 = 0x8000_0000_0000_0000;
        proof {
            lemma_square_values();
        }
        for i in 0..64
            invariant
                i < 64 ==> iter_bit == square((63 - i) as u64),
                moves@ + squares_from(moves_pattern, (64 - i) as nat) == squares_from(
                    moves_pattern,
                    64,
                ),
        {
            let ghost before = moves@;
            proof {
                lemma_square_meets(moves_pattern, (63 - i) as u64);
            }
            if iter_bit & moves_pattern != 0 {
                moves.push(iter_bit);
            }
            proof {
                let rest = squares_from(moves_pattern, (63 - i) as nat);
                if iter_bit & moves_pattern != 0 {
                    assert(moves@ + rest =~= before + (seq![iter_bit] + rest));
                } else {
                    assert(moves@ + rest =~= before + rest);
                }
            }
            if i < 63 {
                proof {
                    lemma_square_shr((63 - i) as u64);
                }
            }
            iter_bit >>= 1;
        }
        proof {
            assert(moves@ =~= moves@ + squares_from(moves_pattern, 0));
            lemma_squares_from(moves_pattern, 64);
            let b = self@.board;
            let promo = self@.promotion;
            assert forall|i: int| 0 <= i < moves@.len() implies is_legal(
                b,
                position,
                #[trigger] moves@[i],
                promo,
            ) by {
                lemma_legal_target(b, position, moves@[i], promo);
            }
            assert forall|t: u64| is_legal(b, position, t, promo) implies moves@.contains(t) by {
                lemma_square_index(t);
                lemma_legal_below(b, position, promo, 64, square_index(t));
                let l = moves_pattern;
                lemma_or_and(l, t, 0);
            }
        }
        moves
    }
}

} // verus!
