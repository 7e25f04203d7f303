//! The board drawn as text: one line per rank from the eighth down to the
//! first, one character per square from the a-file to the h-file.
use vstd::prelude::*;
use crate::bitboard::{has_bit, lemma_square_is_square, square};
use crate::board::Board;
use crate::game::moves::{own_side, rook_attack};
use crate::game::Game;

verus! {

/// The character drawn for the square with index `k`: 'C' when `highlight`
/// holds it, else the letter of the piece there (upper case for white, lower
/// case for black; a black piece and, within a side, the king, queen, rook,
/// bishop, knight and pawn, in that order, win over the others), else '*'.
pub open spec fn square_symbol(b: Board, highlight: u64, k: u64) -> char {
    if has_bit(highlight, k) {
        'C'
    } else if has_bit(b.black & b.king, k) {
        'k'
    } else if has_bit(b.black & b.queen, k) {
        'q'
    } else if has_bit(b.black & b.rook, k) {
        'r'
    } else if has_bit(b.black & b.bishop, k) {
        'b'
    } else if has_bit(b.black & b.knight, k) {
        'n'
    } else if has_bit(b.black & b.pawn, k) {
        'p'
    } else if has_bit(b.white & b.king, k) {
        'K'
    } else if has_bit(b.white & b.queen, k) {
        'Q'
    } else if has_bit(b.white & b.rook, k) {
        'R'
    } else if has_bit(b.white & b.bishop, k) {
        'B'
    } else if has_bit(b.white & b.knight, k) {
        'N'
    } else if has_bit(b.white & b.pawn, k) {
        'P'
    } else {
        '*'
    }
}

/// The eight characters of rank `r` (0 for the first rank), from a to h.
pub open spec fn rank_text(b: Board, highlight: u64, r: int) -> Seq<char> {
    Seq::new(8, |f: int| square_symbol(b, highlight, (r * 8 + f) as u64))
}

/// The first `n` lines of the drawing: each a newline followed by a rank,
/// from the eighth rank down.
pub open spec fn board_lines(b: Board, highlight: u64, n: nat) -> Seq<char>
    decreases n,
{
    if n == 0 {
        Seq::empty()
    } else {
        board_lines(b, highlight, (n - 1) as nat) + seq!['\n'] + rank_text(
            b,
            highlight,
            8 - n,
        )
    }
}

/// The whole drawing of the board with the squares of `highlight` marked.
pub open spec fn board_text(b: Board, highlight: u64) -> Seq<char> {
    board_lines(b, highlight, 8)
}

/// `String::push`, which appends the character `c` to the end of the string,
/// as its documentation says and the contract states.
#[verifier::external_body]
fn push_char(s: &mut String, c: char)
    ensures
        final(s)@ == old(s)@.push(c),
{
    s.push(c);
}

/// The character drawn for the square with index `k`.
fn symbol_at(b: &Board, highlight: u64, k: u64) -> (c: char)
    requires
        k < 64,
    ensures
        c == square_symbol(*b, highlight, k),
{
    // Get the intersection for every set of color and piece
    let white_pawn: u64 = b.white & b.pawn;
    let white_knight: u64 = b.white & b.knight;
    let white_bishop: u64 = b.white & b.bishop;
    let white_rook: u64 = b.white & b.rook;
    let white_queen: u64 = b.white & b.queen;
    let white_king: u64 = b.white & b.king;

    let black_pawn: u64 = b.black & b.pawn;
    let black_knight: u64 = b.black & b.knight;
    let black_bishop: u64 = b.black & b.bishop;
    let black_rook: u64 = b.black & b.rook;
    let black_queen: u64 = b.black & b.queen;
    let black_king: u64 = b.black & b.king;
    // A later match draws over an earlier one.
    let mut c = '*';
    if (white_pawn >> k) & 1 == 1 {
        c = 'P';
    }
    if (white_knight >> k) & 1 == 1 {
        c = 'N';
    }
    if (white_bishop >> k) & 1 == 1 {
        c = 'B';
    }
    if (white_rook >> k) & 1 == 1 {
        c = 'R';
    }
    if (white_queen >> k) & 1 == 1 {
        c = 'Q';
    }
    if (white_king >> k) & 1 == 1 {
        c = 'K';
    }
    if (black_pawn >> k) & 1 == 1 {
        c = 'p';
    }
    if (black_knight >> k) & 1 == 1 {
        c = 'n';
    }
    if (black_bishop >> k) & 1 == 1 {
        c = 'b';
    }
    if (black_rook >> k) & 1 == 1 {
        c = 'r';
    }
    if (black_queen >> k) & 1 == 1 {
        c = 'q';
    }
    if (black_king >> k) & 1 == 1 {
        c = 'k';
    }
    if (highlight >> k) & 1 == 1 {
        c = 'C';
    }
    c
}

impl Game {
    /// The board drawn as text, the squares of `highlight` drawn as 'C'.
    pub fn board_string(&self, highlight: u64) -> (s: String)
        ensures
            s@ == board_text(self@.board, highlight),
    {
        let b = &self.board;
        // The character of every square, by index.
        let mut board: [char; 64] = ['*'; 64];
        for i in 0..64
            invariant
                b == self.board,
                forall|j: int| 0 <= j < i ==> board[j] == square_symbol(*b, highlight, j as u64),
        {
            board[i] = symbol_at(b, highlight, i as u64);
        }
        // Create the string for the output, from the eighth rank down.
        let mut board_string: String = String::new();
        for file in 0..8
            invariant
                b == self.board,
                forall|j: int| 0 <= j < 64 ==> board[j] == square_symbol(*b, highlight, j as u64),
                board_string@ == board_lines(*b, highlight, file as nat),
        {
            push_char(&mut board_string, '\n');
            let ghost lines = board_string@;
            for rank in 0..8
                invariant
                    b == self.board,
                    0 <= file < 8,
                    forall|j: int|
                        0 <= j < 64 ==> board[j] == square_symbol(*b, highlight, j as u64),
                    board_string@ == lines + rank_text(*b, highlight, 7 - file).take(rank as int),
            {
                push_char(&mut board_string, board[(7 - file) * 8 + rank]);
                proof {
                    assert(rank_text(*b, highlight, 7 - file).take(rank + 1) =~= rank_text(
                        *b,
                        highlight,
                        7 - file,
                    ).take(rank as int).push(board[(7 - file) * 8 + rank]));
                }
            }
            proof {
                assert(rank_text(*b, highlight, 7 - file).take(8) =~= rank_text(
                    *b,
                    highlight,
                    7 - file,
                ));
            }
        }
        board_string
    }

    /// The board drawn as text. When a piece stands on e4, the squares a rook
    /// there could move to are drawn as 'C'; the starting board is drawn
    /// plainly.
    pub fn debug_string(&self) -> (s: String)
        requires
            self.wf(),
        ensures
            s@ == board_text(
                self@.board,
                if square(28) & self@.board.occupied() != 0 {
                    rook_attack(self@.board.occupied(), square(28)) & !own_side(
                        self@.board,
                        square(28),
                    )
                } else {
                    0
                },
            ),
    {
        proof {
            reveal_strlit("e4");
            lemma_square_is_square(28);
        }
        let e4 = Game::get_position("e4");
        let rook_capture: u64 = if e4 & (self.board.white | self.board.black) != 0 {
            self.get_rook_moves(e4)
        } else {
            0
        };
        self.board_string(rook_capture)
    }
}

} // verus!
