//! Bitboards: one bit per square, bit 0 is a1, bit 7 is h1, bit 63 is h8.
//!
//! This module holds the shifts by which a piece steps over the board, the
//! bit reversal used by the sliding pieces, and the facts about single-bit
//! boards that the rest of the crate needs.
use vstd::prelude::*;

verus! {

/// Every square but those of the a-file.
pub const NOT_A_FILE: u64 = 0xfefe_fefe_fefe_fefe;

/// Every square but those of the a- and b-files.
pub const NOT_A_B_FILE: u64 = 0xfcfc_fcfc_fcfc_fcfc;

/// Every square but those of the h-file.
pub const NOT_H_FILE: u64 = 0x7f7f_7f7f_7f7f_7f7f;

/// Every square but those of the g- and h-files.
pub const NOT_G_H_FILE: u64 = 0x3f3f_3f3f_3f3f_3f3f;

/// The board of the single square with index `k` (0 for a1, 63 for h8).
pub open spec fn square(k: u64) -> u64 {
    1u64 << k
}

/// A board holding exactly one square.
pub open spec fn is_square(b: u64) -> bool {
    b != 0 && b & ((b - 1) as u64) == 0
}

/// Whether bit `k` of `b` is set.
pub open spec fn has_bit(b: u64, k: u64) -> bool {
    (b >> k) & 1 == 1
}

// One step in each of the eight directions, as seen from white.
pub open spec fn north(b: u64) -> u64 {
    b << 8u64
}

pub open spec fn south(b: u64) -> u64 {
    b >> 8u64
}

pub open spec fn east(b: u64) -> u64 {
    (b << 1u64) & NOT_A_FILE
}

pub open spec fn west(b: u64) -> u64 {
    (b >> 1u64) & NOT_H_FILE
}

pub open spec fn north_east(b: u64) -> u64 {
    (b << 9u64) & NOT_A_FILE
}

pub open spec fn south_east(b: u64) -> u64 {
    (b >> 7u64) & NOT_A_FILE
}

pub open spec fn north_west(b: u64) -> u64 {
    (b << 7u64) & NOT_H_FILE
}

pub open spec fn south_west(b: u64) -> u64 {
    (b >> 9u64) & NOT_H_FILE
}

// The eight jumps of a knight: two squares one way and one square the other.
pub open spec fn jump_nne(b: u64) -> u64 {
    (b << 17u64) & NOT_A_FILE
}

pub open spec fn jump_nee(b: u64) -> u64 {
    (b << 10u64) & NOT_A_B_FILE
}

pub open spec fn jump_see(b: u64) -> u64 {
    (b >> 6u64) & NOT_A_B_FILE
}

pub open spec fn jump_sse(b: u64) -> u64 {
    (b >> 15u64) & NOT_A_FILE
}

pub open spec fn jump_nnw(b: u64) -> u64 {
    (b << 15u64) & NOT_H_FILE
}

pub open spec fn jump_nww(b: u64) -> u64 {
    (b << 6u64) & NOT_G_H_FILE
}

pub open spec fn jump_sww(b: u64) -> u64 {
    (b >> 10u64) & NOT_G_H_FILE
}

pub open spec fn jump_ssw(b: u64) -> u64 {
    (b >> 17u64) & NOT_H_FILE
}

/// A step is undone by the step the other way, for the squares the first step
/// keeps on the board: north by south off the eighth rank, south by north off
/// the first, east by west off the h-file, west by east off the a-file.
pub proof fn lemma_step_back(b: u64)
    ensures
        b & 0xff00_0000_0000_0000u64 == 0 ==> south(north(b)) == b,
        b & 0x0000_0000_0000_00ffu64 == 0 ==> north(south(b)) == b,
        b & 0x8080_8080_8080_8080u64 == 0 ==> west(east(b)) == b,
        b & 0x0101_0101_0101_0101u64 == 0 ==> east(west(b)) == b,
{
    assert((b & 0xff00_0000_0000_0000u64 == 0 ==> ((b << 8u64) >> 8u64) == b) && (b
        & 0x0000_0000_0000_00ffu64 == 0 ==> ((b >> 8u64) << 8u64) == b) && (b
        & 0x8080_8080_8080_8080u64 == 0 ==> (((b << 1u64) & 0xfefe_fefe_fefe_fefeu64) >> 1u64)
        & 0x7f7f_7f7f_7f7f_7f7fu64 == b) && (b & 0x0101_0101_0101_0101u64 == 0 ==> (((b >> 1u64)
        & 0x7f7f_7f7f_7f7f_7f7fu64) << 1u64) & 0xfefe_fefe_fefe_fefeu64 == b)) by (bit_vector);
}

/// The squares a white pawn on `b` attacks.
pub open spec fn white_pawn_attack(b: u64) -> u64 {
    north_east(b) | north_west(b)
}

/// The squares a black pawn on `b` attacks.
pub open spec fn black_pawn_attack(b: u64) -> u64 {
    south_east(b) | south_west(b)
}

/// The squares a knight on `b` jumps to.
pub open spec fn knight_attack(b: u64) -> u64 {
    jump_nnw(b) | jump_nww(b) | jump_sww(b) | jump_ssw(b) | jump_sse(b) | jump_see(b)
        | jump_nee(b) | jump_nne(b)
}

/// The squares a king on `b` steps to: its row `west | east`, and the rows
/// above and below that hold `b` and its row.
pub open spec fn king_attack(b: u64) -> u64 {
    let row = east(b) | west(b);
    let king_row = b | row;
    north(king_row) | south(king_row) | row
}

/// The bit reversal of `x`: bit `k` of the result is bit `63 - k` of `x`
/// (see `lemma_rev64_bit`).
pub open spec fn rev64(x: u64) -> u64 {
    let x1 = ((x >> 1u64) & 0x5555_5555_5555_5555u64) | ((x & 0x5555_5555_5555_5555u64) << 1u64);
    let x2 = ((x1 >> 2u64) & 0x3333_3333_3333_3333u64) | ((x1 & 0x3333_3333_3333_3333u64) << 2u64);
    let x3 = ((x2 >> 4u64) & 0x0f0f_0f0f_0f0f_0f0fu64) | ((x2 & 0x0f0f_0f0f_0f0f_0f0fu64) << 4u64);
    let x4 = ((x3 >> 8u64) & 0x00ff_00ff_00ff_00ffu64) | ((x3 & 0x00ff_00ff_00ff_00ffu64) << 8u64);
    let x5 = ((x4 >> 16u64) & 0x0000_ffff_0000_ffffu64) | ((x4 & 0x0000_ffff_0000_ffffu64)
        << 16u64);
    (x5 >> 32u64) | (x5 << 32u64)
}

/// `rev64` is the bit reversal: bit `k` of `rev64(x)` is bit `63 - k` of `x`.
pub proof fn lemma_rev64_bit(x: u64, k: u64)
    requires
        k < 64,
    ensures
        has_bit(rev64(x), k) == has_bit(x, (63 - k) as u64),
{
    assert(((rev64(x) >> k) & 1 == 1) == ((x >> ((63 - k) as u64)) & 1 == 1)) by (bit_vector)
        requires
            k < 64,
    ;
}

/// Reversing the bits twice gives the board back.
pub proof fn lemma_rev64_involution(x: u64)
    ensures
        rev64(rev64(x)) == x,
{
    assert(rev64(rev64(x)) == x) by (bit_vector);
}

/// The bit reversal of `x`: bit `k` of the result is bit `63 - k` of `x`
/// (see `lemma_rev64_bit`).
pub fn reverse_bits(x: u64) -> (r: u64)
    ensures
        r == rev64(x),
{
    let x1 = ((x >> 1) & 0x5555_5555_5555_5555) | ((x & 0x5555_5555_5555_5555) << 1);
    let x2 = ((x1 >> 2) & 0x3333_3333_3333_3333) | ((x1 & 0x3333_3333_3333_3333) << 2);
    let x3 = ((x2 >> 4) & 0x0f0f_0f0f_0f0f_0f0f) | ((x2 & 0x0f0f_0f0f_0f0f_0f0f) << 4);
    let x4 = ((x3 >> 8) & 0x00ff_00ff_00ff_00ff) | ((x3 & 0x00ff_00ff_00ff_00ff) << 8);
    let x5 = ((x4 >> 16) & 0x0000_ffff_0000_ffff) | ((x4 & 0x0000_ffff_0000_ffff) << 16);
    (x5 >> 32) | (x5 << 32)
}

/// `x - y`, wrapping around modulo 2^64.
pub open spec fn wrapping_sub(x: u64, y: u64) -> u64 {
    vstd::wrapping::u64_specs::wrapping_sub(x, y)
}

/// The subtraction trick on `occupied` from `position`: the squares above
/// `position` up to the first square of `occupied` above it, and those below
/// it down to the first square of `occupied` below it (see
/// `lemma_slide_reaches`).
pub open spec fn slide(occupied: u64, position: u64) -> u64 {
    wrapping_sub(occupied, position << 1u64) ^ rev64(
        wrapping_sub(rev64(occupied), rev64(position) << 1u64),
    )
}

/// No square of `occupied` lies strictly between the single squares
/// `position` and `x`.
pub open spec fn clear_between(occupied: u64, position: u64, x: u64) -> bool {
    ||| position < x && occupied & ((x - 2 * position) as u64) == 0
    ||| x < position && occupied & ((position - 2 * x) as u64) == 0
}

/// The subtraction trick reaches, from the single square `position`, exactly
/// the single squares `x` with no square of `occupied` strictly between.
pub proof fn lemma_slide_reaches(occupied: u64, position: u64, x: u64)
    requires
        is_square(position),
        is_square(x),
        x != position,
    ensures
        (slide(occupied, position) & x != 0) == clear_between(occupied, position, x),
{
    let (o, p) = (occupied, position);
    assert(p != 0 && p & ((p - 1) as u64) == 0 && x != 0 && x & ((x - 1) as u64) == 0 && x != p
        ==> ((wrapping_sub(o, p << 1u64) ^ rev64(wrapping_sub(rev64(o), rev64(p) << 1u64))) & x
        != 0) == ((p < x && o & ((x - 2 * p) as u64) == 0) || (x < p && o & ((p - 2
        * x) as u64) == 0))) by (bit_vector);
}

/// The 64 single-square boards, by index.
pub proof fn lemma_square_values()
    ensures
        square(0) == 0x1u64, square(1) == 0x2u64, square(2) == 0x4u64, square(3) == 0x8u64,
        square(4) == 0x10u64, square(5) == 0x20u64, square(6) == 0x40u64, square(7) == 0x80u64,
        square(8) == 0x100u64, square(9) == 0x200u64, square(10) == 0x400u64,
        square(11) == 0x800u64, square(12) == 0x1000u64, square(13) == 0x2000u64,
        square(14) == 0x4000u64, square(15) == 0x8000u64, square(16) == 0x1_0000u64,
        square(17) == 0x2_0000u64, square(18) == 0x4_0000u64, square(19) == 0x8_0000u64,
        square(20) == 0x10_0000u64, square(21) == 0x20_0000u64, square(22) == 0x40_0000u64,
        square(23) == 0x80_0000u64, square(24) == 0x100_0000u64, square(25) == 0x200_0000u64,
        square(26) == 0x400_0000u64, square(27) == 0x800_0000u64, square(28) == 0x1000_0000u64,
        square(29) == 0x2000_0000u64, square(30) == 0x4000_0000u64,
        square(31) == 0x8000_0000u64, square(32) == 0x1_0000_0000u64,
        square(33) == 0x2_0000_0000u64, square(34) == 0x4_0000_0000u64,
        square(35) == 0x8_0000_0000u64, square(36) == 0x10_0000_0000u64,
        square(37) == 0x20_0000_0000u64, square(38) == 0x40_0000_0000u64,
        square(39) == 0x80_0000_0000u64, square(40) == 0x100_0000_0000u64,
        square(41) == 0x200_0000_0000u64, square(42) == 0x400_0000_0000u64,
        square(43) == 0x800_0000_0000u64, square(44) == 0x1000_0000_0000u64,
        square(45) == 0x2000_0000_0000u64, square(46) == 0x4000_0000_0000u64,
        square(47) == 0x8000_0000_0000u64, square(48) == 0x1_0000_0000_0000u64,
        square(49) == 0x2_0000_0000_0000u64, square(50) == 0x4_0000_0000_0000u64,
        square(51) == 0x8_0000_0000_0000u64, square(52) == 0x10_0000_0000_0000u64,
        square(53) == 0x20_0000_0000_0000u64, square(54) == 0x40_0000_0000_0000u64,
        square(55) == 0x80_0000_0000_0000u64, square(56) == 0x100_0000_0000_0000u64,
        square(57) == 0x200_0000_0000_0000u64, square(58) == 0x400_0000_0000_0000u64,
        square(59) == 0x800_0000_0000_0000u64, square(60) == 0x1000_0000_0000_0000u64,
        square(61) == 0x2000_0000_0000_0000u64, square(62) == 0x4000_0000_0000_0000u64,
        square(63) == 0x8000_0000_0000_0000u64,
{
    assert(
        (1u64 << 0u64) == 0x1u64 && (1u64 << 1u64) == 0x2u64 && (1u64 << 2u64) == 0x4u64 && (1u64
            << 3u64) == 0x8u64 && (1u64 << 4u64) == 0x10u64 && (1u64 << 5u64) == 0x20u64 && (1u64
            << 6u64) == 0x40u64 && (1u64 << 7u64) == 0x80u64 && (1u64 << 8u64) == 0x100u64 && (1u64
            << 9u64) == 0x200u64 && (1u64 << 10u64) == 0x400u64 && (1u64 << 11u64) == 0x800u64
            && (1u64 << 12u64) == 0x1000u64 && (1u64 << 13u64) == 0x2000u64 && (1u64 << 14u64)
            == 0x4000u64 && (1u64 << 15u64) == 0x8000u64 && (1u64 << 16u64) == 0x1_0000u64 && (1u64
            << 17u64) == 0x2_0000u64 && (1u64 << 18u64) == 0x4_0000u64 && (1u64 << 19u64)
            == 0x8_0000u64 && (1u64 << 20u64) == 0x10_0000u64 && (1u64 << 21u64) == 0x20_0000u64
            && (1u64 << 22u64) == 0x40_0000u64 && (1u64 << 23u64) == 0x80_0000u64 && (1u64
            << 24u64) == 0x100_0000u64 && (1u64 << 25u64) == 0x200_0000u64 && (1u64 << 26u64)
            == 0x400_0000u64 && (1u64 << 27u64) == 0x800_0000u64 && (1u64 << 28u64)
            == 0x1000_0000u64 && (1u64 << 29u64) == 0x2000_0000u64 && (1u64 << 30u64)
            == 0x4000_0000u64 && (1u64 << 31u64) == 0x8000_0000u64 && (1u64 << 32u64)
            == 0x1_0000_0000u64 && (1u64 << 33u64) == 0x2_0000_0000u64 && (1u64 << 34u64)
            == 0x4_0000_0000u64 && (1u64 << 35u64) == 0x8_0000_0000u64 && (1u64 << 36u64)
            == 0x10_0000_0000u64 && (1u64 << 37u64) == 0x20_0000_0000u64 && (1u64 << 38u64)
            == 0x40_0000_0000u64 && (1u64 << 39u64) == 0x80_0000_0000u64 && (1u64 << 40u64)
            == 0x100_0000_0000u64 && (1u64 << 41u64) == 0x200_0000_0000u64 && (1u64 << 42u64)
            == 0x400_0000_0000u64 && (1u64 << 43u64) == 0x800_0000_0000u64 && (1u64 << 44u64)
            == 0x1000_0000_0000u64 && (1u64 << 45u64) == 0x2000_0000_0000u64 && (1u64 << 46u64)
            == 0x4000_0000_0000u64 && (1u64 << 47u64) == 0x8000_0000_0000u64 && (1u64 << 48u64)
            == 0x1_0000_0000_0000u64 && (1u64 << 49u64) == 0x2_0000_0000_0000u64 && (1u64
            << 50u64) == 0x4_0000_0000_0000u64 && (1u64 << 51u64) == 0x8_0000_0000_0000u64 && (1u64
            << 52u64) == 0x10_0000_0000_0000u64 && (1u64 << 53u64) == 0x20_0000_0000_0000u64
            && (1u64 << 54u64) == 0x40_0000_0000_0000u64 && (1u64 << 55u64)
            == 0x80_0000_0000_0000u64 && (1u64 << 56u64) == 0x100_0000_0000_0000u64 && (1u64
            << 57u64) == 0x200_0000_0000_0000u64 && (1u64 << 58u64) == 0x400_0000_0000_0000u64
            && (1u64 << 59u64) == 0x800_0000_0000_0000u64 && (1u64 << 60u64)
            == 0x1000_0000_0000_0000u64 && (1u64 << 61u64) == 0x2000_0000_0000_0000u64 && (1u64
            << 62u64) == 0x4000_0000_0000_0000u64 && (1u64 << 63u64) == 0x8000_0000_0000_0000u64
    ) by (bit_vector);
}

/// A single-square board is one of the 64 squares.
pub proof fn lemma_square_is_some_index(b: u64)
    requires
        is_square(b),
    ensures
        exists|k: u64| k < 64 && b == #[trigger] square(k),
{
    lemma_square_values();
    lemma_square_cases(b);
    if b == 0x1u64 { assert(b == square(0)); }
    else if b == 0x2u64 { assert(b == square(1)); }
    else if b == 0x4u64 { assert(b == square(2)); }
    else if b == 0x8u64 { assert(b == square(3)); }
    else if b == 0x10u64 { assert(b == square(4)); }
    else if b == 0x20u64 { assert(b == square(5)); }
    else if b == 0x40u64 { assert(b == square(6)); }
    else if b == 0x80u64 { assert(b == square(7)); }
    else if b == 0x100u64 { assert(b == square(8)); }
    else if b == 0x200u64 { assert(b == square(9)); }
    else if b == 0x400u64 { assert(b == square(10)); }
    else if b == 0x800u64 { assert(b == square(11)); }
    else if b == 0x1000u64 { assert(b == square(12)); }
    else if b == 0x2000u64 { assert(b == square(13)); }
    else if b == 0x4000u64 { assert(b == square(14)); }
    else if b == 0x8000u64 { assert(b == square(15)); }
    else if b == 0x1_0000u64 { assert(b == square(16)); }
    else if b == 0x2_0000u64 { assert(b == square(17)); }
    else if b == 0x4_0000u64 { assert(b == square(18)); }
    else if b == 0x8_0000u64 { assert(b == square(19)); }
    else if b == 0x10_0000u64 { assert(b == square(20)); }
    else if b == 0x20_0000u64 { assert(b == square(21)); }
    else if b == 0x40_0000u64 { assert(b == square(22)); }
    else if b == 0x80_0000u64 { assert(b == square(23)); }
    else if b == 0x100_0000u64 { assert(b == square(24)); }
    else if b == 0x200_0000u64 { assert(b == square(25)); }
    else if b == 0x400_0000u64 { assert(b == square(26)); }
    else if b == 0x800_0000u64 { assert(b == square(27)); }
    else if b == 0x1000_0000u64 { assert(b == square(28)); }
    else if b == 0x2000_0000u64 { assert(b == square(29)); }
    else if b == 0x4000_0000u64 { assert(b == square(30)); }
    else if b == 0x8000_0000u64 { assert(b == square(31)); }
    else if b == 0x1_0000_0000u64 { assert(b == square(32)); }
    else if b == 0x2_0000_0000u64 { assert(b == square(33)); }
    else if b == 0x4_0000_0000u64 { assert(b == square(34)); }
    else if b == 0x8_0000_0000u64 { assert(b == square(35)); }
    else if b == 0x10_0000_0000u64 { assert(b == square(36)); }
    else if b == 0x20_0000_0000u64 { assert(b == square(37)); }
    else if b == 0x40_0000_0000u64 { assert(b == square(38)); }
    else if b == 0x80_0000_0000u64 { assert(b == square(39)); }
    else if b == 0x100_0000_0000u64 { assert(b == square(40)); }
    else if b == 0x200_0000_0000u64 { assert(b == square(41)); }
    else if b == 0x400_0000_0000u64 { assert(b == square(42)); }
    else if b == 0x800_0000_0000u64 { assert(b == square(43)); }
    else if b == 0x1000_0000_0000u64 { assert(b == square(44)); }
    else if b == 0x2000_0000_0000u64 { assert(b == square(45)); }
    else if b == 0x4000_0000_0000u64 { assert(b == square(46)); }
    else if b == 0x8000_0000_0000u64 { assert(b == square(47)); }
    else if b == 0x1_0000_0000_0000u64 { assert(b == square(48)); }
    else if b == 0x2_0000_0000_0000u64 { assert(b == square(49)); }
    else if b == 0x4_0000_0000_0000u64 { assert(b == square(50)); }
    else if b == 0x8_0000_0000_0000u64 { assert(b == square(51)); }
    else if b == 0x10_0000_0000_0000u64 { assert(b == square(52)); }
    else if b == 0x20_0000_0000_0000u64 { assert(b == square(53)); }
    else if b == 0x40_0000_0000_0000u64 { assert(b == square(54)); }
    else if b == 0x80_0000_0000_0000u64 { assert(b == square(55)); }
    else if b == 0x100_0000_0000_0000u64 { assert(b == square(56)); }
    else if b == 0x200_0000_0000_0000u64 { assert(b == square(57)); }
    else if b == 0x400_0000_0000_0000u64 { assert(b == square(58)); }
    else if b == 0x800_0000_0000_0000u64 { assert(b == square(59)); }
    else if b == 0x1000_0000_0000_0000u64 { assert(b == square(60)); }
    else if b == 0x2000_0000_0000_0000u64 { assert(b == square(61)); }
    else if b == 0x4000_0000_0000_0000u64 { assert(b == square(62)); }
    else { assert(b == square(63)); }
}

/// The single-square boards are exactly the 64 powers of two.
pub proof fn lemma_square_cases(b: u64)
    requires
        is_square(b),
    ensures
        b == 0x1u64 || b == 0x2u64 || b == 0x4u64 || b == 0x8u64 || b == 0x10u64 || b == 0x20u64
            || b == 0x40u64 || b == 0x80u64 || b == 0x100u64 || b == 0x200u64 || b == 0x400u64
            || b == 0x800u64 || b == 0x1000u64 || b == 0x2000u64 || b == 0x4000u64 || b
            == 0x8000u64 || b == 0x1_0000u64 || b == 0x2_0000u64 || b == 0x4_0000u64 || b
            == 0x8_0000u64 || b == 0x10_0000u64 || b == 0x20_0000u64 || b == 0x40_0000u64 || b
            == 0x80_0000u64 || b == 0x100_0000u64 || b == 0x200_0000u64 || b == 0x400_0000u64 || b
            == 0x800_0000u64 || b == 0x1000_0000u64 || b == 0x2000_0000u64 || b == 0x4000_0000u64
            || b == 0x8000_0000u64 || b == 0x1_0000_0000u64 || b == 0x2_0000_0000u64 || b
            == 0x4_0000_0000u64 || b == 0x8_0000_0000u64 || b == 0x10_0000_0000u64 || b
            == 0x20_0000_0000u64 || b == 0x40_0000_0000u64 || b == 0x80_0000_0000u64 || b
            == 0x100_0000_0000u64 || b == 0x200_0000_0000u64 || b == 0x400_0000_0000u64 || b
            == 0x800_0000_0000u64 || b == 0x1000_0000_0000u64 || b == 0x2000_0000_0000u64 || b
            == 0x4000_0000_0000u64 || b == 0x8000_0000_0000u64 || b == 0x1_0000_0000_0000u64 || b
            == 0x2_0000_0000_0000u64 || b == 0x4_0000_0000_0000u64 || b == 0x8_0000_0000_0000u64
            || b == 0x10_0000_0000_0000u64 || b == 0x20_0000_0000_0000u64 || b
            == 0x40_0000_0000_0000u64 || b == 0x80_0000_0000_0000u64 || b
            == 0x100_0000_0000_0000u64 || b == 0x200_0000_0000_0000u64 || b
            == 0x400_0000_0000_0000u64 || b == 0x800_0000_0000_0000u64 || b
            == 0x1000_0000_0000_0000u64 || b == 0x2000_0000_0000_0000u64 || b
            == 0x4000_0000_0000_0000u64 || b == 0x8000_0000_0000_0000u64,
{
    assert(b != 0 && b & ((b - 1) as u64) == 0 ==> (b == 0x1u64 || b == 0x2u64 || b == 0x4u64 || b
        == 0x8u64 || b == 0x10u64 || b == 0x20u64 || b == 0x40u64 || b == 0x80u64 || b == 0x100u64
        || b == 0x200u64 || b == 0x400u64 || b == 0x800u64 || b == 0x1000u64 || b == 0x2000u64 || b
        == 0x4000u64 || b == 0x8000u64 || b == 0x1_0000u64 || b == 0x2_0000u64 || b == 0x4_0000u64
        || b == 0x8_0000u64 || b == 0x10_0000u64 || b == 0x20_0000u64 || b == 0x40_0000u64 || b
        == 0x80_0000u64 || b == 0x100_0000u64 || b == 0x200_0000u64 || b == 0x400_0000u64 || b
        == 0x800_0000u64 || b == 0x1000_0000u64 || b == 0x2000_0000u64 || b == 0x4000_0000u64 || b
        == 0x8000_0000u64 || b == 0x1_0000_0000u64 || b == 0x2_0000_0000u64 || b
        == 0x4_0000_0000u64 || b == 0x8_0000_0000u64 || b == 0x10_0000_0000u64 || b
        == 0x20_0000_0000u64 || b == 0x40_0000_0000u64 || b == 0x80_0000_0000u64 || b
        == 0x100_0000_0000u64 || b == 0x200_0000_0000u64 || b == 0x400_0000_0000u64 || b
        == 0x800_0000_0000u64 || b == 0x1000_0000_0000u64 || b == 0x2000_0000_0000u64 || b
        == 0x4000_0000_0000u64 || b == 0x8000_0000_0000u64 || b == 0x1_0000_0000_0000u64 || b
        == 0x2_0000_0000_0000u64 || b == 0x4_0000_0000_0000u64 || b == 0x8_0000_0000_0000u64 || b
        == 0x10_0000_0000_0000u64 || b == 0x20_0000_0000_0000u64 || b == 0x40_0000_0000_0000u64
        || b == 0x80_0000_0000_0000u64 || b == 0x100_0000_0000_0000u64 || b
        == 0x200_0000_0000_0000u64 || b == 0x400_0000_0000_0000u64 || b
        == 0x800_0000_0000_0000u64 || b == 0x1000_0000_0000_0000u64 || b
        == 0x2000_0000_0000_0000u64 || b == 0x4000_0000_0000_0000u64 || b
        == 0x8000_0000_0000_0000u64)) by (bit_vector);
}

/// Shifting a square one bit down gives the square with the next lower index.
pub proof fn lemma_square_shr(k: u64)
    requires
        1 <= k < 64,
    ensures
        square(k) >> 1u64 == square((k - 1) as u64),
{
    assert(1 <= k < 64 ==> (1u64 << k) >> 1u64 == 1u64 << ((k - 1) as u64)) by (bit_vector);
}

/// The index of the single square `b`.
pub open spec fn square_index(b: u64) -> u64 {
    choose|k: u64| k < 64 && square(k) == b
}

/// Distinct indices give distinct squares.
pub proof fn lemma_square_injective(a: u64, b: u64)
    requires
        a < 64,
        b < 64,
        square(a) == square(b),
    ensures
        a == b,
{
    assert(a < 64 && b < 64 && (1u64 << a) == (1u64 << b) ==> a == b) by (bit_vector);
}

/// `square_index` finds the index of a single square.
pub proof fn lemma_square_index(b: u64)
    requires
        is_square(b),
    ensures
        square_index(b) < 64,
        square(square_index(b)) == b,
{
    lemma_square_is_some_index(b);
}

/// A square meets a board exactly when the board has its bit.
pub proof fn lemma_square_meets(b: u64, k: u64)
    requires
        k < 64,
    ensures
        (square(k) & b != 0) == has_bit(b, k),
{
    assert(k < 64 ==> (((1u64 << k) & b != 0) == ((b >> k) & 1 == 1))) by (bit_vector);
}

/// A single square below the square `n + 1` is the square `n` or lies below it.
pub proof fn lemma_square_below_next(x: u64, n: u64)
    requires
        is_square(x),
        n < 64,
        n == 63 || x < square((n + 1) as u64),
    ensures
        x == square(n) || x < square(n),
{
    assert(x != 0 && x & ((x - 1) as u64) == 0 && n < 64 && (n == 63 || x < (1u64 << ((n
        + 1) as u64))) ==> x == (1u64 << n) || x < (1u64 << n)) by (bit_vector);
}

/// Squares grow with their index.
pub proof fn lemma_square_increases(n: u64)
    requires
        n < 63,
    ensures
        square(n) < square((n + 1) as u64),
{
    assert(n < 63 ==> (1u64 << n) < (1u64 << ((n + 1) as u64))) by (bit_vector);
}

/// The squares of `b` among the indices below `n`, from the highest down.
pub open spec fn squares_from(b: u64, n: nat) -> Seq<u64>
    decreases n,
{
    if n == 0 {
        Seq::empty()
    } else {
        let k = (n - 1) as u64;
        let rest = squares_from(b, (n - 1) as nat);
        if has_bit(b, k) {
            seq![square(k)] + rest
        } else {
            rest
        }
    }
}

/// `squares_from(b, n)` lists, in strictly decreasing order, exactly the
/// single squares of `b` below the square `n`.
pub proof fn lemma_squares_from(b: u64, n: nat)
    requires
        n <= 64,
    ensures
        forall|i: int|
            0 <= i < squares_from(b, n).len() ==> {
                let x = #[trigger] squares_from(b, n)[i];
                &&& is_square(x)
                &&& x & b != 0
                &&& n < 64 ==> x < square(n as u64)
            },
        forall|i: int, j: int|
            0 <= i < j < squares_from(b, n).len() ==> squares_from(b, n)[i] > squares_from(
                b,
                n,
            )[j],
        forall|x: u64|
            is_square(x) && x & b != 0 && (n < 64 ==> x < square(n as u64)) ==> squares_from(
                b,
                n,
            ).contains(x),
    decreases n,
{
    if n == 0 {
        lemma_square_values();
    } else {
        let k = (n - 1) as u64;
        let rest = squares_from(b, (n - 1) as nat);
        lemma_squares_from(b, (n - 1) as nat);
        lemma_square_is_square(k);
        lemma_square_meets(b, k);
        if n < 64 {
            lemma_square_increases(k);
        }
        let r = squares_from(b, n);
        assert forall|x: u64|
            is_square(x) && x & b != 0 && (n < 64 ==> x < square(n as u64)) implies r.contains(
            x,
        ) by {
            lemma_square_below_next(x, k);
            if x == square(k) {
                assert(r[0] == x);
            } else {
                let m = choose|m: int| 0 <= m < rest.len() && rest[m] == x;
                if has_bit(b, k) {
                    assert(r[m + 1] == x);
                } else {
                    assert(r[m] == x);
                }
            }
        }
        if has_bit(b, k) {
            assert forall|i: int| 0 < i < r.len() implies r[i] == rest[i - 1] by {}
        }
    }
}

/// Shifting a square one bit up gives the square with the next higher index.
pub proof fn lemma_square_shl(k: u64)
    requires
        k < 63,
    ensures
        square(k) << 1u64 == square((k + 1) as u64),
{
    assert(k < 63 ==> (1u64 << k) << 1u64 == 1u64 << ((k + 1) as u64)) by (bit_vector);
}

/// Or-ing the first of eight boards once more changes nothing.
pub proof fn lemma_or_repeat_first(a: u64, b: u64, c: u64, d: u64, e: u64, f: u64, g: u64, h: u64)
    ensures
        a | b | c | d | e | f | g | h | a == a | b | c | d | e | f | g | h,
{
    assert(a | b | c | d | e | f | g | h | a == a | b | c | d | e | f | g | h) by (bit_vector);
}

/// Every square is a single-square board.
pub proof fn lemma_square_is_square(k: u64)
    requires
        k < 64,
    ensures
        is_square(square(k)),
        has_bit(square(k), k),
{
    assert(k < 64 ==> (1u64 << k) != 0 && (1u64 << k) & (((1u64 << k) - 1) as u64) == 0 && ((1u64
        << k) >> k) & 1 == 1) by (bit_vector);
}

/// Small facts about `|` and `&` on boards.
pub proof fn lemma_or_and(x: u64, y: u64, z: u64)
    by (bit_vector)
    ensures
        x | 0u64 == x,
        0u64 & z == 0,
        ((x | y) & z != 0) == (x & z != 0 || y & z != 0),
        (x & y != 0) == (y & x != 0),
        (x & y) & z != 0 ==> y & z != 0,
        (x & y) & z != 0 ==> x & z != 0,
        (x & y) & z != 0 ==> x & y != 0,
        x & y == 0 ==> (z & x) & y == 0,
        x & (y | z) != 0 && x & y == 0 ==> x & z != 0,
{
}

/// Bit `m` of `v & w` is set when it is set in both, bit `m` of `!v` when it
/// is not set in `v`; a board with a bit set
/// is not empty, and a board that is not empty has a lowest single square.
pub proof fn lemma_bit_facts(v: u64, w: u64, m: u64)
    by (bit_vector)
    requires
        m < 64,
    ensures
        has_bit(v & w, m) == (has_bit(v, m) && has_bit(w, m)),
        has_bit(!v, m) == !has_bit(v, m),
        v == 0 ==> !has_bit(v, m),
        v != 0 ==> is_square(v & ((!v + 1) as u64)) && (v & ((!v + 1) as u64)) & v != 0,
{
}

/// A board is empty exactly when none of its 64 bits is set.
pub proof fn lemma_empty_iff_no_bits(v: u64)
    ensures
        (v == 0) == (forall|m: u64| m < 64 ==> !#[trigger] has_bit(v, m)),
{
    if v == 0 {
        assert forall|m: u64| m < 64 implies !#[trigger] has_bit(v, m) by {
            lemma_bit_facts(v, v, m);
        }
    } else {
        lemma_bit_facts(v, v, 0);
        let low = v & ((!v + 1) as u64);
        lemma_square_index(low);
        let m = square_index(low);
        lemma_square_meets(v, m);
    }
}

/// The index `m` lies strictly between the indices `k` and `j`.
pub open spec fn between(k: u64, m: u64, j: u64) -> bool {
    k < m < j || j < m < k
}

/// Squares are ordered as their indices, and the board `x - 2 * position`
/// of `clear_between` holds exactly the squares strictly between the two.
pub proof fn lemma_squares_between(k: u64, j: u64, m: u64)
    by (bit_vector)
    requires
        k < 64,
        j < 64,
        m < 64,
    ensures
        ((1u64 << k) < (1u64 << j)) == (k < j),
        k < j ==> has_bit((((1u64 << j) - 2 * (1u64 << k)) as u64), m) == (k < m && m < j),
{
}

/// The single squares `k` and `j` have no square of `occupied` strictly
/// between them, index-wise, exactly when none of the bits strictly between
/// `k` and `j` is set in `occupied`.
pub proof fn lemma_clear_between_bits(occupied: u64, k: u64, j: u64)
    requires
        k < 64,
        j < 64,
        k != j,
    ensures
        clear_between(occupied, square(k), square(j)) == (forall|m: u64|
            m < 64 && between(k, m, j) ==> !#[trigger] has_bit(occupied, m)),
{
    let (p, x) = (square(k), square(j));
    lemma_squares_between(k, j, 0);
    lemma_squares_between(j, k, 0);
    let v = if k < j {
        occupied & ((x - 2 * p) as u64)
    } else {
        occupied & ((p - 2 * x) as u64)
    };
    lemma_empty_iff_no_bits(v);
    assert forall|m: u64| m < 64 implies #[trigger] has_bit(v, m) == (has_bit(occupied, m)
        && between(k, m, j)) by {
        lemma_squares_between(k, j, m);
        lemma_squares_between(j, k, m);
        if k < j {
            lemma_bit_facts(occupied, ((x - 2 * p) as u64), m);
        } else {
            lemma_bit_facts(occupied, ((p - 2 * x) as u64), m);
        }
    }
    assert(clear_between(occupied, p, x) == (v == 0));
    if v == 0 {
        assert forall|m: u64| m < 64 && between(k, m, j) implies !#[trigger] has_bit(
            occupied,
            m,
        ) by {
            assert(!has_bit(v, m));
        }
    } else {
        let m = choose|m: u64| m < 64 && #[trigger] has_bit(v, m);
        assert(has_bit(occupied, m) && between(k, m, j));
    }
}

/// The rank of the square with index `k`: 0 for the first rank, 7 for the
/// eighth.
pub open spec fn rank_index(k: u64) -> int {
    (k / 8) as int
}

/// The file of the square with index `k`: 0 for the a-file, 7 for the h-file.
pub open spec fn file_index(k: u64) -> int {
    (k % 8) as int
}

/// The square `j` is a knight's jump from the square `k`: one rank and two
/// files away, or two ranks and one file.
pub open spec fn knight_jump(k: u64, j: u64) -> bool {
    let dr = rank_index(j) - rank_index(k);
    let df = file_index(j) - file_index(k);
    ||| (dr == 1 || dr == -1) && (df == 2 || df == -2)
    ||| (dr == 2 || dr == -2) && (df == 1 || df == -1)
}

/// The square `j` is a king's step from the square `k`: another square at
/// most one rank and at most one file away.
pub open spec fn king_step(k: u64, j: u64) -> bool {
    let dr = rank_index(j) - rank_index(k);
    let df = file_index(j) - file_index(k);
    &&& j != k
    &&& -1 <= dr <= 1
    &&& -1 <= df <= 1
}

/// The square `j` is one rank up from the square `k` (`up`) or one rank down
/// (`!up`), on a neighbouring file.
pub open spec fn diagonal_step(k: u64, j: u64, up: bool) -> bool {
    let dr = rank_index(j) - rank_index(k);
    let df = file_index(j) - file_index(k);
    &&& dr == (if up { 1int } else { -1int })
    &&& (df == 1 || df == -1)
}

/// The knight jumps in terms of rank `k / 8` and file `k % 8`.
proof fn lemma_knight_bits(k: u64, j: u64)
    by (bit_vector)
    requires
        k < 64,
        j < 64,
    ensures
        (knight_attack(1u64 << k) & (1u64 << j) != 0) == (((j / 8 == k / 8 + 1 || j / 8 + 1 == k
            / 8) && (j % 8 == k % 8 + 2 || j % 8 + 2 == k % 8)) || ((j / 8 == k / 8 + 2 || j / 8
            + 2 == k / 8) && (j % 8 == k % 8 + 1 || j % 8 + 1 == k % 8))),
{
}

/// The king steps in terms of rank `k / 8` and file `k % 8`.
proof fn lemma_king_bits(k: u64, j: u64)
    by (bit_vector)
    requires
        k < 64,
        j < 64,
    ensures
        (king_attack(1u64 << k) & (1u64 << j) != 0) == (j != k && (j / 8 == k / 8 || j / 8 == k
            / 8 + 1 || j / 8 + 1 == k / 8) && (j % 8 == k % 8 || j % 8 == k % 8 + 1 || j % 8 + 1
            == k % 8)),
{
}

/// The pawn attacks in terms of rank `k / 8` and file `k % 8`.
proof fn lemma_pawn_bits(k: u64, j: u64)
    by (bit_vector)
    requires
        k < 64,
        j < 64,
    ensures
        (white_pawn_attack(1u64 << k) & (1u64 << j) != 0) == (j / 8 == k / 8 + 1 && (j % 8 == k
            % 8 + 1 || j % 8 + 1 == k % 8)),
        (black_pawn_attack(1u64 << k) & (1u64 << j) != 0) == (j / 8 + 1 == k / 8 && (j % 8 == k
            % 8 + 1 || j % 8 + 1 == k % 8)),
{
}

/// A knight on the square `k` attacks exactly the squares a knight's jump
/// away, and no square off the board.
pub proof fn lemma_knight_attack(k: u64, j: u64)
    requires
        k < 64,
        j < 64,
    ensures
        (knight_attack(square(k)) & square(j) != 0) == knight_jump(k, j),
{
    lemma_knight_bits(k, j);
}

/// A king on the square `k` attacks exactly the squares next to it: the
/// eight around it, those of its own rank included, fewer on an edge.
pub proof fn lemma_king_attack(k: u64, j: u64)
    requires
        k < 64,
        j < 64,
    ensures
        (king_attack(square(k)) & square(j) != 0) == king_step(k, j),
{
    lemma_king_bits(k, j);
}

/// A white pawn on the square `k` attacks exactly the squares one rank up on
/// a neighbouring file; a black pawn those one rank down.
pub proof fn lemma_pawn_attack(k: u64, j: u64)
    requires
        k < 64,
        j < 64,
    ensures
        (white_pawn_attack(square(k)) & square(j) != 0) == diagonal_step(k, j, true),
        (black_pawn_attack(square(k)) & square(j) != 0) == diagonal_step(k, j, false),
{
    lemma_pawn_bits(k, j);
}

} // verus!
