//! The placement of the pieces, kept as nine bitboards, and what a move does
//! to it.
use vstd::prelude::*;
use crate::bitboard::{is_square, lemma_or_and};

verus! {

/// The two sides.
#[derive(Copy, Clone, Debug, PartialEq, Eq, Structural)]
pub enum Color {
    White,
    Black,
}

/// The six kinds of piece.
#[derive(Copy, Clone, Debug, PartialEq, Eq, Structural)]
pub enum Piece {
    Pawn,
    Knight,
    Rook,
    Bishop,
    Queen,
    King,
}

/// The side that is not `c`.
pub open spec fn opponent(c: Color) -> Color {
    match c {
        Color::White => Color::Black,
        Color::Black => Color::White,
    }
}

impl Color {
    /// The other side.
    pub fn other(self) -> (r: Color)
        ensures
            r == opponent(self),
    {
        match self {
            Color::White => Color::Black,
            Color::Black => Color::White,
        }
    }
}

/// The eighth rank.
pub const RANK_8: u64 = 0xff00_0000_0000_0000;

/// The first rank.
pub const RANK_1: u64 = 0x0000_0000_0000_00ff;

/// The rank on which a pawn of side `c` is promoted.
pub open spec fn promotion_rank(c: Color) -> u64 {
    match c {
        Color::White => RANK_8,
        Color::Black => RANK_1,
    }
}

/// The placement of the pieces: one board per side, one per kind of piece, and
/// one for the empty squares.
#[derive(Copy, Clone, Debug, PartialEq, Eq, Structural)]
pub struct Board {
    pub white: u64,
    pub black: u64,
    pub pawn: u64,
    pub knight: u64,
    pub bishop: u64,
    pub rook: u64,
    pub queen: u64,
    pub king: u64,
    pub empty: u64,
}

/// The position at the start of a game.
pub open spec fn initial_board() -> Board {
    Board {
        white: 0x0000_0000_0000_ffffu64,
        black: 0xffff_0000_0000_0000u64,
        pawn: 0x00ff_0000_0000_ff00u64,
        knight: 0x4200_0000_0000_0042u64,
        bishop: 0x2400_0000_0000_0024u64,
        rook: 0x8100_0000_0000_0081u64,
        queen: 0x0800_0000_0000_0008u64,
        king: 0x1000_0000_0000_0010u64,
        empty: 0x0000_ffff_ffff_0000u64,
    }
}

/// Boards that place the pieces consistently: the sides are apart and the
/// empty squares are the rest; the six kinds are apart and cover exactly the
/// squares of the two sides; each side has a single king.
pub open spec fn consistent(
    w: u64,
    k: u64,
    e: u64,
    pa: u64,
    kn: u64,
    bi: u64,
    ro: u64,
    qu: u64,
    ki: u64,
) -> bool {
    &&& w & k == 0
    &&& e == !(w | k)
    &&& pa | kn | bi | ro | qu | ki == w | k
    &&& pa & kn == 0 && pa & bi == 0 && pa & ro == 0 && pa & qu == 0 && pa & ki == 0
    &&& kn & bi == 0 && kn & ro == 0 && kn & qu == 0 && kn & ki == 0
    &&& bi & ro == 0 && bi & qu == 0 && bi & ki == 0
    &&& ro & qu == 0 && ro & ki == 0
    &&& qu & ki == 0
    &&& is_square(ki & w)
    &&& is_square(ki & k)
}

impl Board {
    /// The board of side `c`.
    pub open spec fn side(self, c: Color) -> u64 {
        match c {
            Color::White => self.white,
            Color::Black => self.black,
        }
    }

    /// The board of the pieces of kind `k`.
    pub open spec fn kind(self, k: Piece) -> u64 {
        match k {
            Piece::Pawn => self.pawn,
            Piece::Knight => self.knight,
            Piece::Rook => self.rook,
            Piece::Bishop => self.bishop,
            Piece::Queen => self.queen,
            Piece::King => self.king,
        }
    }

    /// The squares holding a piece.
    pub open spec fn occupied(self) -> u64 {
        self.white | self.black
    }

    /// The pieces are placed consistently (see `consistent`).
    pub open spec fn is_valid(self) -> bool {
        consistent(
            self.white,
            self.black,
            self.empty,
            self.pawn,
            self.knight,
            self.bishop,
            self.rook,
            self.queen,
            self.king,
        )
    }

    /// The side owning `p`: white when `p` meets the white board, black
    /// otherwise.
    pub open spec fn color_on(self, p: u64) -> Color {
        if p & self.white != 0 {
            Color::White
        } else {
            Color::Black
        }
    }

    /// The kind of piece on `p`: the first of pawn, knight, rook, bishop and
    /// queen whose board meets `p`, else king.
    pub open spec fn piece_on(self, p: u64) -> Piece {
        if p & self.pawn != 0 {
            Piece::Pawn
        } else if p & self.knight != 0 {
            Piece::Knight
        } else if p & self.rook != 0 {
            Piece::Rook
        } else if p & self.bishop != 0 {
            Piece::Bishop
        } else if p & self.queen != 0 {
            Piece::Queen
        } else {
            Piece::King
        }
    }

    /// The board with `t` added to the board of kind `k`.
    pub open spec fn add_to_kind(self, k: Piece, t: u64) -> Board {
        match k {
            Piece::Pawn => Board { pawn: self.pawn | t, ..self },
            Piece::Knight => Board { knight: self.knight | t, ..self },
            Piece::Rook => Board { rook: self.rook | t, ..self },
            Piece::Bishop => Board { bishop: self.bishop | t, ..self },
            Piece::Queen => Board { queen: self.queen | t, ..self },
            Piece::King => Board { king: self.king | t, ..self },
        }
    }
}

/// The kind the piece on `p` has once on `t`: the kind `promotion` for a pawn
/// reaching its last rank, its own kind otherwise.
pub open spec fn placed_kind(b: Board, p: u64, t: u64, promotion: Piece) -> Piece {
    if b.piece_on(p) == Piece::Pawn && t & promotion_rank(b.color_on(p)) != 0 {
        promotion
    } else {
        b.piece_on(p)
    }
}

/// The board after the piece on `p` moves to `t`: whatever stood on `t` is
/// captured (it leaves its side and its kind), `p` becomes empty, and `t`
/// holds the moving side and the kind `placed_kind`.
pub open spec fn apply_move(b: Board, p: u64, t: u64, promotion: Piece) -> Board {
    let c = b.color_on(p);
    let m = p | t;
    let cleared = Board {
        white: if c == Color::White {
            (b.white & !p) | t
        } else {
            b.white & !t
        },
        black: if c == Color::Black {
            (b.black & !p) | t
        } else {
            b.black & !t
        },
        pawn: b.pawn & !m,
        knight: b.knight & !m,
        bishop: b.bishop & !m,
        rook: b.rook & !m,
        queen: b.queen & !m,
        king: b.king & !m,
        empty: (b.empty | p) & !t,
    };
    cleared.add_to_kind(placed_kind(b, p, t, promotion), t)
}

impl Board {
    /// The board of side `c`.
    pub fn side_bits(&self, c: Color) -> (r: u64)
        ensures
            r == self.side(c),
    {
        match c {
            Color::White => self.white,
            Color::Black => self.black,
        }
    }

    /// The kind of piece on `p` (see `piece_on`).
    pub fn piece_at(&self, p: u64) -> (r: Piece)
        ensures
            r == self.piece_on(p),
    {
        if p & self.pawn != 0 {
            Piece::Pawn
        } else if p & self.knight != 0 {
            Piece::Knight
        } else if p & self.rook != 0 {
            Piece::Rook
        } else if p & self.bishop != 0 {
            Piece::Bishop
        } else if p & self.queen != 0 {
            Piece::Queen
        } else {
            Piece::King
        }
    }

    /// Moves the piece on `p` to `t` (see `apply_move`).
    pub fn move_piece(&mut self, p: u64, t: u64, promotion: Piece)
        ensures
            *final(self) == apply_move(*old(self), p, t, promotion),
    {
        let old_kind = self.piece_at(p);
        let promotes = match old_kind {
            Piece::Pawn => if p & self.white != 0 {
                t & RANK_8 != 0
            } else {
                t & RANK_1 != 0
            },
            _ => false,
        };
        let new_kind = if promotes {
            promotion
        } else {
            old_kind
        };
        let m = p | t;
        if p & self.white != 0 {
            self.white = (self.white & !p) | t;
            self.black = self.black & !t;
        } else {
            self.black = (self.black & !p) | t;
            self.white = self.white & !t;
        }
        self.pawn = self.pawn & !m;
        self.knight = self.knight & !m;
        self.bishop = self.bishop & !m;
        self.rook = self.rook & !m;
        self.queen = self.queen & !m;
        self.king = self.king & !m;
        self.empty = (self.empty | p) & !t;
        match new_kind {
            Piece::Pawn => self.pawn = self.pawn | t,
            Piece::Knight => self.knight = self.knight | t,
            Piece::Rook => self.rook = self.rook | t,
            Piece::Bishop => self.bishop = self.bishop | t,
            Piece::Queen => self.queen = self.queen | t,
            Piece::King => self.king = self.king | t,
        }
    }
}

/// The consistency of boards, read from the side of the mover `s` and of its
/// opponent `o`, is kept when the piece on the single square `p` of `s`
/// moves to the single square `t`, which holds neither a piece of `s` nor a
/// king; the piece becomes a king exactly when it was one.
proof fn lemma_consistent_after_move(
    s: u64,
    o: u64,
    e: u64,
    pa: u64,
    kn: u64,
    bi: u64,
    ro: u64,
    qu: u64,
    ki: u64,
    p: u64,
    t: u64,
    h1: bool,
    h2: bool,
    h3: bool,
    h4: bool,
    h5: bool,
    h6: bool,
)
    requires
        consistent(s, o, e, pa, kn, bi, ro, qu, ki),
        is_square(p),
        is_square(t),
        p & s != 0,
        t & s == 0,
        t & ki == 0,
        (h1 && !h2 && !h3 && !h4 && !h5 && !h6) || (!h1 && h2 && !h3 && !h4 && !h5 && !h6) || (!h1
            && !h2 && h3 && !h4 && !h5 && !h6) || (!h1 && !h2 && !h3 && h4 && !h5 && !h6) || (!h1
            && !h2 && !h3 && !h4 && h5 && !h6) || (!h1 && !h2 && !h3 && !h4 && !h5 && h6),
        h6 == (p & ki != 0),
    ensures
        ({
            let m = p | t;
            consistent(
                (s & !p) | t,
                o & !t,
                (e | p) & !t,
                (pa & !m) | (if h1 { t } else { 0 }),
                (kn & !m) | (if h2 { t } else { 0 }),
                (bi & !m) | (if h3 { t } else { 0 }),
                (ro & !m) | (if h4 { t } else { 0 }),
                (qu & !m) | (if h5 { t } else { 0 }),
                (ki & !m) | (if h6 { t } else { 0 }),
            )
        }),
{
    assert(consistent(s, o, e, pa, kn, bi, ro, qu, ki) && p != 0 && p & ((p - 1) as u64) == 0 && t
        != 0 && t & ((t - 1) as u64) == 0 && p & s != 0 && t & s == 0 && t & ki == 0 && ((h1 && !h2
        && !h3 && !h4 && !h5 && !h6) || (!h1 && h2 && !h3 && !h4 && !h5 && !h6) || (!h1 && !h2
        && h3 && !h4 && !h5 && !h6) || (!h1 && !h2 && !h3 && h4 && !h5 && !h6) || (!h1 && !h2
        && !h3 && !h4 && h5 && !h6) || (!h1 && !h2 && !h3 && !h4 && !h5 && h6)) && h6 == (p & ki
        != 0) ==> consistent(
        (s & !p) | t,
        o & !t,
        (e | p) & !t,
        (pa & !(p | t)) | (if h1 { t } else { 0 }),
        (kn & !(p | t)) | (if h2 { t } else { 0 }),
        (bi & !(p | t)) | (if h3 { t } else { 0 }),
        (ro & !(p | t)) | (if h4 { t } else { 0 }),
        (qu & !(p | t)) | (if h5 { t } else { 0 }),
        (ki & !(p | t)) | (if h6 { t } else { 0 }),
    )) by (bit_vector);
}

/// Consistency does not depend on which side is named first.
proof fn lemma_consistent_swap(
    w: u64,
    k: u64,
    e: u64,
    pa: u64,
    kn: u64,
    bi: u64,
    ro: u64,
    qu: u64,
    ki: u64,
)
    ensures
        consistent(w, k, e, pa, kn, bi, ro, qu, ki) == consistent(k, w, e, pa, kn, bi, ro, qu, ki),
{
    assert(consistent(w, k, e, pa, kn, bi, ro, qu, ki) == consistent(k, w, e, pa, kn, bi, ro, qu, ki))
        by (bit_vector);
}

/// On a consistent board, the piece on an occupied single square is a king
/// exactly when the king board meets that square.
proof fn lemma_king_on(b: Board, p: u64)
    requires
        b.is_valid(),
        is_square(p),
        p & b.occupied() != 0,
    ensures
        (b.piece_on(p) == Piece::King) == (p & b.king != 0),
{
    let (w, k, e, pa, kn, bi, ro, qu, ki) = (
        b.white,
        b.black,
        b.empty,
        b.pawn,
        b.knight,
        b.bishop,
        b.rook,
        b.queen,
        b.king,
    );
    assert(consistent(w, k, e, pa, kn, bi, ro, qu, ki) && p != 0 && p & ((p - 1) as u64) == 0 && p
        & (w | k) != 0 ==> ((p & pa == 0 && p & kn == 0 && p & ro == 0 && p & bi == 0 && p & qu
        == 0) == (p & ki != 0))) by (bit_vector);
}

/// A move of the piece on an occupied single square `p` to a single square
/// `t` that holds neither a piece of the same side nor a king, with any
/// promotion but to a king, keeps the board consistent: the sides stay apart,
/// the empty squares are the rest, the kinds stay apart and cover the sides,
/// and each side keeps a single king.
pub proof fn lemma_move_keeps_valid(b: Board, p: u64, t: u64, promotion: Piece)
    requires
        b.is_valid(),
        is_square(p),
        is_square(t),
        p & b.occupied() != 0,
        t & b.side(b.color_on(p)) == 0,
        t & b.king == 0,
        promotion != Piece::King,
    ensures
        apply_move(b, p, t, promotion).is_valid(),
{
    let c = b.color_on(p);
    let nk = placed_kind(b, p, t, promotion);
    lemma_king_on(b, p);
    let (w, k, e, pa, kn, bi, ro, qu, ki) = (
        b.white,
        b.black,
        b.empty,
        b.pawn,
        b.knight,
        b.bishop,
        b.rook,
        b.queen,
        b.king,
    );
    let m = p | t;
    let h1 = nk == Piece::Pawn;
    let h2 = nk == Piece::Knight;
    let h3 = nk == Piece::Bishop;
    let h4 = nk == Piece::Rook;
    let h5 = nk == Piece::Queen;
    let h6 = nk == Piece::King;
    assert(forall|x: u64| #[trigger] (x | 0u64) == x) by {
        assert forall|x: u64| #[trigger] (x | 0u64) == x by {
            lemma_or_and(x, 0, 0);
        }
    }
    if c == Color::White {
        lemma_consistent_after_move(w, k, e, pa, kn, bi, ro, qu, ki, p, t, h1, h2, h3, h4, h5, h6);
    } else {
        assert(p & w == 0);
        assert(p & k != 0) by {
            assert(p & (w | k) != 0 && p & w == 0 ==> p & k != 0) by (bit_vector);
        }
        lemma_consistent_swap(w, k, e, pa, kn, bi, ro, qu, ki);
        lemma_consistent_after_move(k, w, e, pa, kn, bi, ro, qu, ki, p, t, h1, h2, h3, h4, h5, h6);
        lemma_consistent_swap(
            w & !t,
            (k & !p) | t,
            (e | p) & !t,
            (pa & !m) | (if h1 { t } else { 0 }),
            (kn & !m) | (if h2 { t } else { 0 }),
            (bi & !m) | (if h3 { t } else { 0 }),
            (ro & !m) | (if h4 { t } else { 0 }),
            (qu & !m) | (if h5 { t } else { 0 }),
            (ki & !m) | (if h6 { t } else { 0 }),
        );
    }
}

/// Moving a piece from the single square `p` to the single square `t`,
/// which no kind board `x` meets, and back: `t` meets `x` in between exactly
/// when `p` met it, and `x` comes back as it was.
proof fn lemma_kind_there_and_back(x: u64, p: u64, t: u64)
    requires
        is_square(p),
        is_square(t),
        p != t,
        t & x == 0,
    ensures
        (t & ((x & !(p | t)) | (if p & x != 0 { t } else { 0u64 })) != 0) == (p & x != 0),
        (((x & !(p | t)) | (if p & x != 0 { t } else { 0u64 })) & !(t | p)) | (if p & x != 0 {
            p
        } else {
            0u64
        }) == x,
{
    assert(p != 0 && p & ((p - 1) as u64) == 0 && t != 0 && t & ((t - 1) as u64) == 0 && p != t && t
        & x == 0 ==> (t & ((x & !(p | t)) | (if p & x != 0 { t } else { 0u64 })) != 0) == (p & x
        != 0) && (((x & !(p | t)) | (if p & x != 0 { t } else { 0u64 })) & !(t | p)) | (if p & x
        != 0 { p } else { 0u64 }) == x) by (bit_vector);
}

/// The side and empty boards after a move from the single square `p` of `s`
/// to the empty single square `t` and back.
proof fn lemma_sides_there_and_back(
    s: u64,
    o: u64,
    e: u64,
    pa: u64,
    kn: u64,
    bi: u64,
    ro: u64,
    qu: u64,
    ki: u64,
    p: u64,
    t: u64,
)
    requires
        consistent(s, o, e, pa, kn, bi, ro, qu, ki),
        is_square(p),
        is_square(t),
        p & s != 0,
        t & s == 0,
        t & o == 0,
    ensures
        p != t,
        t & pa == 0 && t & kn == 0 && t & bi == 0 && t & ro == 0 && t & qu == 0 && t & ki == 0,
        t & ((s & !p) | t) != 0,
        t & (o & !t) == 0,
        (((s & !p) | t) & !t) | p == s,
        (o & !t) & !p == o,
        ((((e | p) & !t) | t) & !p) == e,
{
    assert(consistent(s, o, e, pa, kn, bi, ro, qu, ki) && p != 0 && p & ((p - 1) as u64) == 0 && t
        != 0 && t & ((t - 1) as u64) == 0 && p & s != 0 && t & s == 0 && t & o == 0 ==> p != t && t & pa
        == 0 && t & kn == 0 && t & bi == 0 && t & ro == 0 && t & qu == 0 && t & ki == 0 && t & ((s
        & !p) | t) != 0 && t & (o & !t) == 0 && (((s & !p) | t) & !t) | p == s && (o & !t) & !p == o
        && ((((e | p) & !t) | t) & !p) == e) by (bit_vector);
}

/// On a consistent board, at most one kind board meets an occupied single
/// square.
proof fn lemma_one_kind_at(b: Board, p: u64)
    requires
        b.is_valid(),
        is_square(p),
    ensures
        p & b.pawn != 0 ==> p & b.knight == 0 && p & b.bishop == 0 && p & b.rook == 0 && p
            & b.queen == 0 && p & b.king == 0,
        p & b.knight != 0 ==> p & b.bishop == 0 && p & b.rook == 0 && p & b.queen == 0 && p
            & b.king == 0,
        p & b.bishop != 0 ==> p & b.rook == 0 && p & b.queen == 0 && p & b.king == 0,
        p & b.rook != 0 ==> p & b.bishop == 0 && p & b.queen == 0 && p & b.king == 0,
        p & b.queen != 0 ==> p & b.king == 0,
{
    let (pa, kn, bi, ro, qu, ki) = (b.pawn, b.knight, b.bishop, b.rook, b.queen, b.king);
    assert(pa & kn == 0 && pa & bi == 0 && pa & ro == 0 && pa & qu == 0 && pa & ki == 0 && kn & bi
        == 0 && kn & ro == 0 && kn & qu == 0 && kn & ki == 0 && bi & ro == 0 && bi & qu == 0 && bi
        & ki == 0 && ro & qu == 0 && ro & ki == 0 && qu & ki == 0 && p != 0 && p & ((p - 1) as u64)
        == 0 ==> (p & pa != 0 ==> p & kn == 0 && p & bi == 0 && p & ro == 0 && p & qu == 0 && p
        & ki == 0) && (p & kn != 0 ==> p & bi == 0 && p & ro == 0 && p & qu == 0 && p & ki == 0)
        && (p & bi != 0 ==> p & ro == 0 && p & qu == 0 && p & ki == 0) && (p & ro != 0 ==> p & bi
        == 0 && p & qu == 0 && p & ki == 0) && (p & qu != 0 ==> p & ki == 0)) by (bit_vector);
}

/// A piece other than a pawn moved from its square to an empty square, and
/// then back, leaves the board as it was.
pub proof fn lemma_move_there_and_back(b: Board, p: u64, t: u64, promotion: Piece)
    requires
        b.is_valid(),
        is_square(p),
        is_square(t),
        p & b.occupied() != 0,
        t & b.occupied() == 0,
        b.piece_on(p) != Piece::Pawn,
    ensures
        apply_move(apply_move(b, p, t, promotion), t, p, promotion) == b,
{
    let c = b.color_on(p);
    let o = opponent(c);
    let (w, k, e, pa, kn, bi, ro, qu, ki) = (
        b.white,
        b.black,
        b.empty,
        b.pawn,
        b.knight,
        b.bishop,
        b.rook,
        b.queen,
        b.king,
    );
    assert(p & (w | k) != 0 && t & (w | k) == 0 ==> (p & w == 0 ==> p & k != 0) && t & w == 0
        && t & k == 0) by (bit_vector);
    lemma_king_on(b, p);
    lemma_one_kind_at(b, p);
    lemma_consistent_swap(w, k, e, pa, kn, bi, ro, qu, ki);
    lemma_sides_there_and_back(b.side(c), b.side(o), e, pa, kn, bi, ro, qu, ki, p, t);
    lemma_kind_there_and_back(pa, p, t);
    lemma_kind_there_and_back(kn, p, t);
    lemma_kind_there_and_back(bi, p, t);
    lemma_kind_there_and_back(ro, p, t);
    lemma_kind_there_and_back(qu, p, t);
    lemma_kind_there_and_back(ki, p, t);
    assert(forall|x: u64| #[trigger] (x | 0u64) == x) by {
        assert forall|x: u64| #[trigger] (x | 0u64) == x by {
            lemma_or_and(x, 0, 0);
        }
    }
    let b1 = apply_move(b, p, t, promotion);
    assert(b1.pawn == (pa & !(p | t)) | (if p & pa != 0 { t } else { 0u64 }));
    assert(b1.knight == (kn & !(p | t)) | (if p & kn != 0 { t } else { 0u64 }));
    assert(b1.bishop == (bi & !(p | t)) | (if p & bi != 0 { t } else { 0u64 }));
    assert(b1.rook == (ro & !(p | t)) | (if p & ro != 0 { t } else { 0u64 }));
    assert(b1.queen == (qu & !(p | t)) | (if p & qu != 0 { t } else { 0u64 }));
    assert(b1.king == (ki & !(p | t)) | (if p & ki != 0 { t } else { 0u64 }));
    assert(b1.color_on(t) == c);
    assert(b1.piece_on(t) == b.piece_on(p));
    let b2 = apply_move(b1, t, p, promotion);
    assert(b2 == b);
}

/// A square `x` after a move from `p` to `t`, on a kind board `kind` (which
/// gets `t` when `h`) and on the boards `s` of the mover and `o` of the other
/// side.
proof fn lemma_square_after_move(x: u64, p: u64, t: u64, kind: u64, h: bool, s: u64, o: u64)
    by (bit_vector)
    requires
        is_square(x),
        is_square(p),
        is_square(t),
        p != t,
        p & s != 0,
        s & o == 0,
    ensures
        x == t ==> (x & ((kind & !(p | t)) | (if h { t } else { 0u64 })) != 0) == h,
        x == t ==> x & ((s & !p) | t) != 0 && x & (o & !t) == 0,
        x == p ==> x & ((kind & !(p | t)) | (if h { t } else { 0u64 })) == 0,
        x == p ==> x & ((s & !p) | t) == 0 && x & (o & !t) == 0,
        x != p && x != t ==> (x & ((kind & !(p | t)) | (if h { t } else { 0u64 })) != 0) == (x
            & kind != 0),
        x != p && x != t ==> (x & ((s & !p) | t) != 0) == (x & s != 0) && (x & (o & !t) != 0) == (x
            & o != 0),
{
}

/// A move from the occupied single square `p` to another single square `t`
/// changes those two squares alone: `t` then holds the mover's side and the
/// kind `placed_kind`, `p` is empty, and every other square keeps its piece,
/// side and occupancy.
pub proof fn lemma_move_squares(b: Board, p: u64, t: u64, promotion: Piece, x: u64)
    requires
        b.is_valid(),
        is_square(p),
        is_square(t),
        is_square(x),
        p != t,
        p & b.occupied() != 0,
    ensures
        x == t ==> apply_move(b, p, t, promotion).piece_on(x) == placed_kind(b, p, t, promotion)
            && apply_move(b, p, t, promotion).color_on(x) == b.color_on(p) && x & apply_move(
            b,
            p,
            t,
            promotion,
        ).occupied() != 0,
        x == p ==> x & apply_move(b, p, t, promotion).occupied() == 0,
        x != p && x != t ==> apply_move(b, p, t, promotion).piece_on(x) == b.piece_on(x)
            && apply_move(b, p, t, promotion).color_on(x) == b.color_on(x) && (x & apply_move(
            b,
            p,
            t,
            promotion,
        ).occupied() != 0) == (x & b.occupied() != 0),
{
    let a = apply_move(b, p, t, promotion);
    let c = b.color_on(p);
    let nk = placed_kind(b, p, t, promotion);
    let m = p | t;
    let (w, k) = (b.white, b.black);
    let (s, o) = (b.side(c), b.side(opponent(c)));
    lemma_or_and(p, w, k);
    lemma_or_and(w, k, 0);
    lemma_or_and(b.pawn & !m, 0, 0);
    lemma_or_and(b.knight & !m, 0, 0);
    lemma_or_and(b.bishop & !m, 0, 0);
    lemma_or_and(b.rook & !m, 0, 0);
    lemma_or_and(b.queen & !m, 0, 0);
    lemma_or_and(b.king & !m, 0, 0);
    assert(a.pawn == (b.pawn & !m) | (if nk == Piece::Pawn { t } else { 0u64 }));
    assert(a.knight == (b.knight & !m) | (if nk == Piece::Knight { t } else { 0u64 }));
    assert(a.bishop == (b.bishop & !m) | (if nk == Piece::Bishop { t } else { 0u64 }));
    assert(a.rook == (b.rook & !m) | (if nk == Piece::Rook { t } else { 0u64 }));
    assert(a.queen == (b.queen & !m) | (if nk == Piece::Queen { t } else { 0u64 }));
    assert(a.king == (b.king & !m) | (if nk == Piece::King { t } else { 0u64 }));
    assert(a.side(c) == (s & !p) | t);
    assert(a.side(opponent(c)) == o & !t);
    lemma_square_after_move(x, p, t, b.pawn, nk == Piece::Pawn, s, o);
    lemma_square_after_move(x, p, t, b.knight, nk == Piece::Knight, s, o);
    lemma_square_after_move(x, p, t, b.bishop, nk == Piece::Bishop, s, o);
    lemma_square_after_move(x, p, t, b.rook, nk == Piece::Rook, s, o);
    lemma_square_after_move(x, p, t, b.queen, nk == Piece::Queen, s, o);
    lemma_square_after_move(x, p, t, b.king, nk == Piece::King, s, o);
    lemma_or_and(a.white, a.black, x);
    lemma_or_and(x, a.white | a.black, 0);
    lemma_or_and(w, k, x);
    lemma_or_and(x, w | k, 0);
    lemma_or_and(x, a.white, 0);
    lemma_or_and(x, w, 0);
    lemma_or_and(x, a.black, 0);
    lemma_or_and(x, k, 0);
}

} // verus!
