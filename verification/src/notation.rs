//! The names by which callers refer to squares ("e4") and to the directions
//! in which a piece steps ("north", "no_ea", "so_so_we", ...).
use vstd::prelude::*;
use crate::board::Piece;
use crate::bitboard::{
    east, file_index, is_square, jump_nee, jump_nne, jump_nnw, jump_nww, jump_see, jump_sse,
    jump_ssw, jump_sww, lemma_square_index, lemma_square_injective, lemma_square_is_square, north,
    north_east, north_west, rank_index, south, south_east, south_west, square, square_index, west,
};

verus! {

broadcast use vstd::string::axiom_spec_iter;

/// The characters of `s`, in order.
pub fn str_chars(s: &str) -> (v: Vec<char>)
    ensures
        v@ == s@,
{
    let mut v: Vec<char> = Vec::new();
    for c in it: s.chars()
        invariant
            v@ == it.seq().take(it.index() as int),
            it.seq() == s@,
    {
        v.push(c);
    }
    v
}

/// Whether `v` holds exactly the characters of `lit`.
pub fn chars_eq(v: &Vec<char>, lit: &[char]) -> (r: bool)
    ensures
        r == (v@ == lit@),
{
    if v.len() != lit.len() {
        return false;
    }
    let mut i: usize = 0;
    while i < v.len()
        invariant
            v@.len() == lit@.len(),
            0 <= i <= v@.len(),
            forall|j: int| 0 <= j < i ==> v@[j] == lit@[j],
        decreases v@.len() - i,
    {
        if v[i] != lit[i] {
            assert(v@[i as int] != lit@[i as int]);
            return false;
        }
        i = i + 1;
    }
    assert(v@ =~= lit@);
    true
}

// The names of the eight one-square steps.
pub open spec fn name_north() -> Seq<char> {
    seq!['n', 'o', 'r', 't', 'h']
}

pub open spec fn name_south() -> Seq<char> {
    seq!['s', 'o', 'u', 't', 'h']
}

pub open spec fn name_east() -> Seq<char> {
    seq!['e', 'a', 's', 't']
}

pub open spec fn name_west() -> Seq<char> {
    seq!['w', 'e', 's', 't']
}

pub open spec fn name_no_ea() -> Seq<char> {
    seq!['n', 'o', '_', 'e', 'a']
}

pub open spec fn name_so_ea() -> Seq<char> {
    seq!['s', 'o', '_', 'e', 'a']
}

pub open spec fn name_no_we() -> Seq<char> {
    seq!['n', 'o', '_', 'w', 'e']
}

pub open spec fn name_so_we() -> Seq<char> {
    seq!['s', 'o', '_', 'w', 'e']
}

/// Whether `dir` names one of the eight one-square steps.
pub open spec fn is_step_name(dir: Seq<char>) -> bool {
    ||| dir == name_north()
    ||| dir == name_south()
    ||| dir == name_east()
    ||| dir == name_west()
    ||| dir == name_no_ea()
    ||| dir == name_so_ea()
    ||| dir == name_no_we()
    ||| dir == name_so_we()
}

/// The board `b` moved one square in the direction named `dir`; squares that
/// would leave the board are dropped.
pub open spec fn step_by_name(dir: Seq<char>, b: u64) -> u64 {
    if dir == name_north() {
        north(b)
    } else if dir == name_south() {
        south(b)
    } else if dir == name_east() {
        east(b)
    } else if dir == name_no_ea() {
        north_east(b)
    } else if dir == name_so_ea() {
        south_east(b)
    } else if dir == name_west() {
        west(b)
    } else if dir == name_no_we() {
        north_west(b)
    } else {
        south_west(b)
    }
}

// The names of the eight knight jumps.
pub open spec fn name_no_no_ea() -> Seq<char> {
    seq!['n', 'o', '_', 'n', 'o', '_', 'e', 'a']
}

pub open spec fn name_no_ea_ea() -> Seq<char> {
    seq!['n', 'o', '_', 'e', 'a', '_', 'e', 'a']
}

pub open spec fn name_so_ea_ea() -> Seq<char> {
    seq!['s', 'o', '_', 'e', 'a', '_', 'e', 'a']
}

pub open spec fn name_so_so_ea() -> Seq<char> {
    seq!['s', 'o', '_', 's', 'o', '_', 'e', 'a']
}

pub open spec fn name_no_no_we() -> Seq<char> {
    seq!['n', 'o', '_', 'n', 'o', '_', 'w', 'e']
}

pub open spec fn name_no_we_we() -> Seq<char> {
    seq!['n', 'o', '_', 'w', 'e', '_', 'w', 'e']
}

pub open spec fn name_so_we_we() -> Seq<char> {
    seq!['s', 'o', '_', 'w', 'e', '_', 'w', 'e']
}

pub open spec fn name_so_so_we() -> Seq<char> {
    seq!['s', 'o', '_', 's', 'o', '_', 'w', 'e']
}

/// Whether `dir` names one of the eight knight jumps.
pub open spec fn is_jump_name(dir: Seq<char>) -> bool {
    ||| dir == name_no_no_ea()
    ||| dir == name_no_ea_ea()
    ||| dir == name_so_ea_ea()
    ||| dir == name_so_so_ea()
    ||| dir == name_no_no_we()
    ||| dir == name_no_we_we()
    ||| dir == name_so_we_we()
    ||| dir == name_so_so_we()
}

/// The board `b` moved by the knight jump named `dir`; squares that would
/// leave the board are dropped.
pub open spec fn jump_by_name(dir: Seq<char>, b: u64) -> u64 {
    if dir == name_no_no_ea() {
        jump_nne(b)
    } else if dir == name_no_ea_ea() {
        jump_nee(b)
    } else if dir == name_so_ea_ea() {
        jump_see(b)
    } else if dir == name_so_so_ea() {
        jump_sse(b)
    } else if dir == name_no_no_we() {
        jump_nnw(b)
    } else if dir == name_no_we_we() {
        jump_nww(b)
    } else if dir == name_so_we_we() {
        jump_sww(b)
    } else {
        jump_ssw(b)
    }
}

/// The string literals of the step and jump names, and the moves they name.
pub proof fn lemma_direction_literals()
    ensures
        "north"@ == name_north(),
        "south"@ == name_south(),
        "east"@ == name_east(),
        "west"@ == name_west(),
        "no_ea"@ == name_no_ea(),
        "so_ea"@ == name_so_ea(),
        "no_we"@ == name_no_we(),
        "so_we"@ == name_so_we(),
        "no_no_ea"@ == name_no_no_ea(),
        "no_ea_ea"@ == name_no_ea_ea(),
        "so_ea_ea"@ == name_so_ea_ea(),
        "so_so_ea"@ == name_so_so_ea(),
        "no_no_we"@ == name_no_no_we(),
        "no_we_we"@ == name_no_we_we(),
        "so_we_we"@ == name_so_we_we(),
        "so_so_we"@ == name_so_so_we(),
        forall|b: u64| #[trigger] step_by_name(name_north(), b) == north(b),
        forall|b: u64| #[trigger] step_by_name(name_south(), b) == south(b),
        forall|b: u64| #[trigger] step_by_name(name_east(), b) == east(b),
        forall|b: u64| #[trigger] step_by_name(name_west(), b) == west(b),
        forall|b: u64| #[trigger] step_by_name(name_no_ea(), b) == north_east(b),
        forall|b: u64| #[trigger] step_by_name(name_so_ea(), b) == south_east(b),
        forall|b: u64| #[trigger] step_by_name(name_no_we(), b) == north_west(b),
        forall|b: u64| #[trigger] step_by_name(name_so_we(), b) == south_west(b),
        forall|b: u64| #[trigger] jump_by_name(name_no_no_ea(), b) == jump_nne(b),
        forall|b: u64| #[trigger] jump_by_name(name_no_ea_ea(), b) == jump_nee(b),
        forall|b: u64| #[trigger] jump_by_name(name_so_ea_ea(), b) == jump_see(b),
        forall|b: u64| #[trigger] jump_by_name(name_so_so_ea(), b) == jump_sse(b),
        forall|b: u64| #[trigger] jump_by_name(name_no_no_we(), b) == jump_nnw(b),
        forall|b: u64| #[trigger] jump_by_name(name_no_we_we(), b) == jump_nww(b),
        forall|b: u64| #[trigger] jump_by_name(name_so_we_we(), b) == jump_sww(b),
        forall|b: u64| #[trigger] jump_by_name(name_so_so_we(), b) == jump_ssw(b),
{
    reveal_strlit("north");
    reveal_strlit("south");
    reveal_strlit("east");
    reveal_strlit("west");
    reveal_strlit("no_ea");
    reveal_strlit("so_ea");
    reveal_strlit("no_we");
    reveal_strlit("so_we");
    reveal_strlit("no_no_ea");
    reveal_strlit("no_ea_ea");
    reveal_strlit("so_ea_ea");
    reveal_strlit("so_so_ea");
    reveal_strlit("no_no_we");
    reveal_strlit("no_we_we");
    reveal_strlit("so_we_we");
    reveal_strlit("so_so_we");
    // The names of equal length differ in some character.
    assert(name_north()[0] != name_south()[0]);
    assert(name_east()[0] != name_west()[0]);
    assert(name_no_ea()[2] != name_north()[2] && name_no_ea()[0] != name_south()[0]);
    assert(name_so_ea()[0] != name_north()[0] && name_so_ea()[2] != name_south()[2]
        && name_so_ea()[0] != name_no_ea()[0]);
    assert(name_no_we()[2] != name_north()[2] && name_no_we()[0] != name_south()[0]
        && name_no_we()[3] != name_no_ea()[3] && name_no_we()[0] != name_so_ea()[0]);
    assert(name_so_we()[0] != name_north()[0] && name_so_we()[2] != name_south()[2]
        && name_so_we()[0] != name_no_ea()[0] && name_so_we()[3] != name_so_ea()[3]
        && name_so_we()[0] != name_no_we()[0]);
    assert(name_no_ea_ea()[3] != name_no_no_ea()[3]);
    assert(name_so_ea_ea()[0] != name_no_no_ea()[0] && name_so_ea_ea()[0] != name_no_ea_ea()[0]);
    assert(name_so_so_ea()[0] != name_no_no_ea()[0] && name_so_so_ea()[0] != name_no_ea_ea()[0]
        && name_so_so_ea()[3] != name_so_ea_ea()[3]);
    assert(name_no_no_we()[6] != name_no_no_ea()[6] && name_no_no_we()[3] != name_no_ea_ea()[3]
        && name_no_no_we()[0] != name_so_ea_ea()[0] && name_no_no_we()[0] != name_so_so_ea()[0]);
    assert(name_no_we_we()[3] != name_no_no_ea()[3] && name_no_we_we()[3] != name_no_ea_ea()[3]
        && name_no_we_we()[0] != name_so_ea_ea()[0] && name_no_we_we()[0] != name_so_so_ea()[0]
        && name_no_we_we()[3] != name_no_no_we()[3]);
    assert(name_so_we_we()[0] != name_no_no_ea()[0] && name_so_we_we()[0] != name_no_ea_ea()[0]
        && name_so_we_we()[3] != name_so_ea_ea()[3] && name_so_we_we()[3] != name_so_so_ea()[3]
        && name_so_we_we()[0] != name_no_no_we()[0] && name_so_we_we()[0] != name_no_we_we()[0]);
    assert(name_so_so_we()[0] != name_no_no_ea()[0] && name_so_so_we()[0] != name_no_ea_ea()[0]
        && name_so_so_we()[3] != name_so_ea_ea()[3] && name_so_so_we()[6] != name_so_so_ea()[6]
        && name_so_so_we()[0] != name_no_no_we()[0] && name_so_so_we()[0] != name_no_we_we()[0]
        && name_so_so_we()[3] != name_so_we_we()[3]);
}

/// Whether `s` is a square in standard notation: a file letter `a` to `h`
/// followed by a rank digit `1` to `8`.
pub open spec fn is_square_name(s: Seq<char>) -> bool {
    &&& s.len() == 2
    &&& 'a' as u32 <= s[0] as u32 <= 'h' as u32
    &&& '1' as u32 <= s[1] as u32 <= '8' as u32
}

/// The index (0 for a1, 63 for h8) of the square named `s`.
pub open spec fn square_index_of_name(s: Seq<char>) -> u64 {
    (8 * (s[1] as u32 - '1' as u32) + (s[0] as u32 - 'a' as u32)) as u64
}

/// The board of a named square is a single square, whose index is that of the
/// name; distinct names give distinct squares.
pub proof fn lemma_square_name_round_trip(s: Seq<char>, t: Seq<char>)
    requires
        is_square_name(s),
        is_square_name(t),
    ensures
        is_square(square(square_index_of_name(s))),
        square_index(square(square_index_of_name(s))) == square_index_of_name(s),
        square(square_index_of_name(s)) == square(square_index_of_name(t)) ==> s == t,
{
    let k = square_index_of_name(s);
    lemma_square_is_square(k);
    lemma_square_index(square(k));
    lemma_square_injective(square_index(square(k)), k);
    if square(k) == square(square_index_of_name(t)) {
        lemma_square_injective(k, square_index_of_name(t));
        assert(s[0] as u32 == t[0] as u32 && s[1] as u32 == t[1] as u32);
        vstd::utf8::char_u32_cast(s[0], s[0] as u32);
        vstd::utf8::char_u32_cast(t[0], t[0] as u32);
        vstd::utf8::char_u32_cast(s[1], s[1] as u32);
        vstd::utf8::char_u32_cast(t[1], t[1] as u32);
        assert(s =~= t);
    }
}

/// The square named `s` lies on the file of its letter (a for the first) and
/// the rank of its digit (1 for the first).
pub proof fn lemma_square_name_coordinates(s: Seq<char>)
    requires
        is_square_name(s),
    ensures
        file_index(square_index_of_name(s)) == s[0] as u32 - 'a' as u32,
        rank_index(square_index_of_name(s)) == s[1] as u32 - '1' as u32,
{
}

/// The kind of piece named `s`: "queen", "rook", "bishop" or "knight".
pub open spec fn promotion_named(s: Seq<char>) -> Option<Piece> {
    if s == seq!['q', 'u', 'e', 'e', 'n'] {
        Some(Piece::Queen)
    } else if s == seq!['r', 'o', 'o', 'k'] {
        Some(Piece::Rook)
    } else if s == seq!['b', 'i', 's', 'h', 'o', 'p'] {
        Some(Piece::Bishop)
    } else if s == seq!['k', 'n', 'i', 'g', 'h', 't'] {
        Some(Piece::Knight)
    } else {
        None
    }
}

} // verus!
