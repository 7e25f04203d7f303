use chess::{Color, Game, GameState, Piece};

fn sq(name: &str) -> u64 {
    Game::get_position(name)
}

fn squares(names: &[&str]) -> Vec<u64> {
    names.iter().map(|n| sq(n)).collect()
}

#[test]
fn new_board_is_drawn_from_the_eighth_rank_down() {
    let game = Game::new();
    assert_eq!(
        game.board_string(0),
        "\nrnbqkbnr\npppppppp\n********\n********\n********\n********\nPPPPPPPP\nRNBQKBNR"
    );
}

#[test]
fn highlighted_squares_are_drawn_as_c() {
    let game = Game::new();
    assert_eq!(
        game.board_string(sq("e4") | sq("a1") | sq("h8")),
        "\nrnbqkbnC\npppppppp\n********\n********\n****C***\n********\nPPPPPPPP\nCNBQKBNR"
    );
}

#[test]
fn new_game_board_and_state() {
    let game = Game::new();
    let b = game.get_board();
    assert_eq!(b.white, 0x0000_0000_0000_ffff);
    assert_eq!(b.black, 0xffff_0000_0000_0000);
    assert_eq!(b.pawn, 0x00ff_0000_0000_ff00);
    assert_eq!(b.knight, 0x4200_0000_0000_0042);
    assert_eq!(b.bishop, 0x2400_0000_0000_0024);
    assert_eq!(b.rook, 0x8100_0000_0000_0081);
    assert_eq!(b.queen, 0x0800_0000_0000_0008);
    assert_eq!(b.king, 0x1000_0000_0000_0010);
    assert_eq!(b.empty, 0x0000_ffff_ffff_0000);
    assert_eq!(game.get_game_state(), GameState::InProgress);
}

#[test]
fn square_names_give_single_squares() {
    assert_eq!(sq("a1"), 0b00000001);
    assert_eq!(sq("h1"), 0b10000000);
    assert_eq!(sq("a2"), 0b00000001_00000000);
    assert_eq!(sq("e4"), 1 << 28);
    assert_eq!(sq("a6"), 1 << 40);
    assert_eq!(sq("a8"), 1 << 56);
    assert_eq!(sq("h8"), 1 << 63);
}

#[test]
fn int_position_inverts_get_position() {
    let files = ['a', 'b', 'c', 'd', 'e', 'f', 'g', 'h'];
    for rank in 0..8usize {
        for file in 0..8usize {
            let name = format!("{}{}", files[file], rank + 1);
            let bit = Game::get_position(&name);
            assert_eq!(bit, 1u64 << (8 * rank + file));
            assert_eq!(Game::get_int_position(bit), 8 * rank + file);
        }
    }
}

#[test]
fn one_step_in_every_direction() {
    let d4 = sq("d4");
    assert_eq!(Game::one_step("north", d4), sq("d5"));
    assert_eq!(Game::one_step("south", d4), sq("d3"));
    assert_eq!(Game::one_step("east", d4), sq("e4"));
    assert_eq!(Game::one_step("west", d4), sq("c4"));
    assert_eq!(Game::one_step("no_ea", d4), sq("e5"));
    assert_eq!(Game::one_step("so_ea", d4), sq("e3"));
    assert_eq!(Game::one_step("no_we", d4), sq("c5"));
    assert_eq!(Game::one_step("so_we", d4), sq("c3"));
}

#[test]
fn steps_off_the_board_are_dropped() {
    assert_eq!(Game::one_step("east", sq("h4")), 0);
    assert_eq!(Game::one_step("west", sq("a4")), 0);
    assert_eq!(Game::one_step("north", sq("e8")), 0);
    assert_eq!(Game::one_step("south", sq("e1")), 0);
    assert_eq!(Game::horse_step("no_ea_ea", sq("g1")), 0);
    assert_eq!(Game::horse_step("so_so_we", sq("b1")), 0);
}

#[test]
fn one_step_back_restores_the_square() {
    let e4 = sq("e4");
    assert_eq!(Game::one_step("south", Game::one_step("north", e4)), e4);
    assert_eq!(Game::one_step("north", Game::one_step("south", e4)), e4);
    assert_eq!(Game::one_step("west", Game::one_step("east", e4)), e4);
    assert_eq!(Game::one_step("east", Game::one_step("west", e4)), e4);
}

#[test]
fn horse_step_in_every_direction() {
    let d4 = sq("d4");
    assert_eq!(Game::horse_step("no_no_ea", d4), sq("e6"));
    assert_eq!(Game::horse_step("no_ea_ea", d4), sq("f5"));
    assert_eq!(Game::horse_step("so_ea_ea", d4), sq("f3"));
    assert_eq!(Game::horse_step("so_so_ea", d4), sq("e2"));
    assert_eq!(Game::horse_step("no_no_we", d4), sq("c6"));
    assert_eq!(Game::horse_step("no_we_we", d4), sq("b5"));
    assert_eq!(Game::horse_step("so_we_we", d4), sq("b3"));
    assert_eq!(Game::horse_step("so_so_we", d4), sq("c2"));
}

#[test]
fn move_tables_are_indexed_from_h8_down() {
    let game = Game::new();
    let table = game.white_pawn_attacks();
    // Entry 63 is a1, which attacks b2.
    assert_eq!(table[63], sq("b2"));
    // Entry 59 is e1, which attacks d2 and f2.
    assert_eq!(table[59], sq("d2") | sq("f2"));
    // Entry 56 is h1, which attacks g2 only.
    assert_eq!(table[56], sq("g2"));
}

#[test]
fn white_pawn_pushes_one_or_two_squares() {
    let mut game = Game::new();
    assert_eq!(game.get_possible_moves(sq("e2")), squares(&["e4", "e3"]));
    assert_eq!(game.get_possible_moves(sq("a2")), squares(&["a4", "a3"]));
}

#[test]
fn black_pawn_pushes_one_or_two_squares() {
    let mut game = Game::new();
    assert_eq!(game.get_possible_moves(sq("e7")), squares(&["e6", "e5"]));
}

#[test]
fn knights_jump_over_pieces_but_not_onto_their_own() {
    let mut game = Game::new();
    assert_eq!(game.get_possible_moves(sq("b1")), squares(&["c3", "a3"]));
    assert_eq!(game.get_possible_moves(sq("g8")), squares(&["h6", "f6"]));
}

#[test]
fn a_move_into_empty_squares() {
    let mut game = Game::new();
    assert_eq!(game.make_move(sq("g1"), sq("f3")), Some(GameState::InProgress));
    let b = game.get_board();
    assert_eq!(b.white, 0x0000_0000_0020_ffbf);
    assert_eq!(b.knight, 0x4200_0000_0020_0002);
    assert_eq!(b.empty, 0x0000_ffff_ffdf_0040);
    assert_eq!(
        game.board_string(0),
        "\nrnbqkbnr\npppppppp\n********\n********\n********\n*****N**\nPPPPPPPP\nRNBQKB*R"
    );
}

#[test]
fn set_promotion_leaves_the_game_as_it_is() {
    let mut game = Game::new();
    game.set_promotion(String::from("queen"));
    assert_eq!(game.get_board(), Game::new().get_board());
    assert_eq!(game.get_game_state(), GameState::InProgress);
}

#[test]
fn king_surrounded_by_its_own_pieces_has_no_move() {
    let mut game = Game::new();
    assert_eq!(game.get_possible_moves(sq("e1")), Vec::<u64>::new());
    assert_eq!(game.get_possible_moves(sq("e8")), Vec::<u64>::new());
    // An empty square has no moves.
    assert_eq!(game.get_possible_moves(sq("e4")), Vec::<u64>::new());
}

#[test]
fn initializing_the_tables_again_changes_nothing() {
    let mut game = Game::new();
    let before = game.white_pawn_attacks();
    game.initialize_move_tables();
    assert_eq!(game.white_pawn_attacks(), before);
    assert_eq!(game.get_board(), Game::new().get_board());
}

#[test]
fn pawn_takes_pawn() {
    let mut game = Game::new();
    assert_eq!(game.make_move(sq("e2"), sq("e4")), Some(GameState::InProgress));
    assert_eq!(game.make_move(sq("d7"), sq("d5")), Some(GameState::InProgress));
    assert_eq!(game.get_possible_moves(sq("e4")), squares(&["e5", "d5"]));
    assert_eq!(game.get_possible_moves(sq("d5")), squares(&["e4", "d4"]));
    assert_eq!(game.make_move(sq("e4"), sq("d5")), Some(GameState::InProgress));
    let b = game.get_board();
    let start = Game::new().get_board();
    assert_eq!(b.white, 0x0000_0008_0000_efff);
    assert_eq!(b.black, 0xfff7_0000_0000_0000);
    assert_eq!(b.pawn, 0x00f7_0008_0000_ef00);
    assert_eq!(b.empty, 0x0008_fff7_ffff_1000);
    assert_eq!(b.knight, start.knight);
    assert_eq!(b.bishop, start.bishop);
    assert_eq!(b.rook, start.rook);
    assert_eq!(b.queen, start.queen);
    assert_eq!(b.king, start.king);
}

#[test]
fn sliders_stop_at_the_first_piece() {
    let mut game = Game::new();
    game.make_move(sq("e2"), sq("e4"));
    game.make_move(sq("d7"), sq("d5"));
    assert_eq!(game.get_possible_moves(sq("f1")), squares(&["a6", "b5", "c4", "d3", "e2"]));
    assert_eq!(game.get_possible_moves(sq("d1")), squares(&["h5", "g4", "f3", "e2"]));
}

#[test]
fn rook_on_an_open_file() {
    let mut game = Game::new();
    assert_eq!(game.get_possible_moves(sq("a1")), Vec::<u64>::new());
    game.make_move(sq("a2"), sq("a4"));
    game.make_move(sq("h7"), sq("h6"));
    assert_eq!(game.get_possible_moves(sq("a1")), squares(&["a3", "a2"]));
    assert_eq!(game.get_rook_moves(sq("a1")), sq("a2") | sq("a3"));
}

#[test]
fn bishop_captures_and_is_blocked_below() {
    let mut game = Game::new();
    for (p, t) in [("d2", "d4"), ("e7", "e6"), ("b1", "c3"), ("f8", "b4"), ("h2", "h3")] {
        assert_eq!(game.make_move(sq(p), sq(t)), Some(GameState::InProgress));
    }
    assert_eq!(
        game.get_possible_moves(sq("b4")),
        squares(&["f8", "e7", "d6", "c5", "a5", "c3", "a3"])
    );
}

#[test]
fn illegal_moves_are_refused() {
    let mut game = Game::new();
    // A pawn cannot advance three squares.
    assert_eq!(game.make_move(sq("e2"), sq("e5")), None);
    // Black does not move first.
    assert_eq!(game.make_move(sq("e7"), sq("e5")), None);
    // No piece on e4.
    assert_eq!(game.make_move(sq("e4"), sq("e5")), None);
    // A piece cannot take its own side.
    assert_eq!(game.make_move(sq("a1"), sq("a2")), None);
    assert_eq!(game.get_board(), Game::new().get_board());
    assert_eq!(game.get_game_state(), GameState::InProgress);
}

#[test]
fn a_check_and_its_answers() {
    let mut game = Game::new();
    assert_eq!(game.make_move(sq("e2"), sq("e4")), Some(GameState::InProgress));
    assert_eq!(game.make_move(sq("f7"), sq("f5")), Some(GameState::InProgress));
    assert_eq!(game.make_move(sq("d1"), sq("h5")), Some(GameState::Check));
    assert_eq!(game.get_game_state(), GameState::Check);
    // Only g6 parries with the g-pawn.
    assert_eq!(game.get_possible_moves(sq("g7")), squares(&["g6"]));
    // The queen never takes the king: e8 is not among its moves.
    assert_eq!(
        game.get_possible_moves(sq("h5")),
        squares(&["h7", "f7", "h6", "g6", "g5", "f5", "h4", "g4", "h3", "f3", "e2", "d1"])
    );
    // Moves that leave the king attacked are refused.
    assert_eq!(game.make_move(sq("a7"), sq("a6")), None);
    assert_eq!(game.make_move(sq("g7"), sq("g5")), None);
    assert_eq!(game.make_move(sq("e8"), sq("f7")), None);
    assert_eq!(game.make_move(sq("g7"), sq("g6")), Some(GameState::InProgress));
}

#[test]
fn fools_mate_ends_the_game() {
    let mut game = Game::new();
    assert_eq!(game.make_move(sq("f2"), sq("f3")), Some(GameState::InProgress));
    assert_eq!(game.make_move(sq("e7"), sq("e5")), Some(GameState::InProgress));
    assert_eq!(game.make_move(sq("g2"), sq("g4")), Some(GameState::InProgress));
    assert_eq!(game.make_move(sq("d8"), sq("h4")), Some(GameState::GameOver));
    assert_eq!(game.get_game_state(), GameState::GameOver);
    // No move is made once the game is over.
    assert_eq!(game.make_move(sq("a2"), sq("a3")), None);
}

#[test]
fn a_pawn_is_promoted_to_the_chosen_kind() {
    let mut game = Game::new();
    game.set_promotion(String::from("knight"));
    for (p, t) in [
        ("h2", "h4"),
        ("g7", "g5"),
        ("h4", "g5"),
        ("g8", "f6"),
        ("g5", "f6"),
        ("a7", "a6"),
        ("f6", "e7"),
        ("a6", "a5"),
        ("e7", "f8"),
    ] {
        assert_eq!(game.make_move(sq(p), sq(t)), Some(GameState::InProgress));
    }
    let b = game.get_board();
    assert_ne!(b.white & sq("f8"), 0);
    assert_ne!(b.knight & sq("f8"), 0);
    assert_eq!(b.pawn & sq("f8"), 0);
    assert_eq!(b.bishop & sq("f8"), 0);
    assert_eq!(b.white, 0x2000_0000_0000_7fff);
    assert_eq!(b.black, 0x9fae_0001_0000_0000);
}

#[test]
fn unknown_promotion_names_are_ignored() {
    let mut game = Game::new();
    game.set_promotion(String::from("king"));
    game.set_promotion(String::from("pawn"));
    assert_eq!(game.get_board(), Game::new().get_board());
}

#[test]
fn moving_there_and_back_restores_the_board() {
    let mut game = Game::new();
    for (p, t) in [("g1", "f3"), ("b8", "c6"), ("f3", "g1"), ("c6", "b8")] {
        assert_eq!(game.make_move(sq(p), sq(t)), Some(GameState::InProgress));
    }
    assert_eq!(game.get_board(), Game::new().get_board());
}

#[test]
fn moves_keep_the_board_consistent() {
    let mut game = Game::new();
    for (p, t) in [("e2", "e4"), ("d7", "d5"), ("e4", "d5"), ("d8", "d5"), ("b1", "c3")] {
        assert!(game.make_move(sq(p), sq(t)).is_some());
    }
    let b = game.get_board();
    assert_eq!(b.white & b.black, 0);
    assert_eq!(b.empty, !(b.white | b.black));
    assert_eq!(b.pawn | b.knight | b.bishop | b.rook | b.queen | b.king, b.white | b.black);
    let kinds = [b.pawn, b.knight, b.bishop, b.rook, b.queen, b.king];
    for i in 0..6 {
        for j in (i + 1)..6 {
            assert_eq!(kinds[i] & kinds[j], 0);
        }
    }
    assert_eq!((b.king & b.white).count_ones(), 1);
    assert_eq!((b.king & b.black).count_ones(), 1);
}

#[test]
fn possible_moves_are_single_squares_in_decreasing_order() {
    let mut game = Game::new();
    game.make_move(sq("e2"), sq("e4"));
    game.make_move(sq("e7"), sq("e5"));
    let moves = game.get_possible_moves(sq("d1"));
    assert!(!moves.is_empty());
    for m in &moves {
        assert_eq!(m.count_ones(), 1);
    }
    for w in moves.windows(2) {
        assert!(w[0] > w[1]);
    }
}

#[test]
fn debug_string_draws_the_starting_board_plainly() {
    let game = Game::new();
    assert_eq!(
        game.debug_string(),
        "\nrnbqkbnr\npppppppp\n********\n********\n********\n********\nPPPPPPPP\nRNBQKBNR"
    );
}

#[test]
fn debug_string_marks_the_moves_of_a_rook_on_e4() {
    let mut game = Game::new();
    game.make_move(sq("e2"), sq("e4"));
    assert_eq!(game.debug_string(), game.board_string(game.get_rook_moves(sq("e4"))));
}

#[test]
fn board_moves_a_piece() {
    let mut b = Game::new().get_board();
    b.move_piece(sq("g1"), sq("f3"), Piece::Queen);
    assert_eq!(b.knight, 0x4200_0000_0020_0002);
    assert_eq!(b.white, 0x0000_0000_0020_ffbf);
    assert_eq!(b.piece_at(sq("f3")), Piece::Knight);
    assert_eq!(b.side_bits(Color::Black), 0xffff_0000_0000_0000);
    assert_eq!(Color::White.other(), Color::Black);
}
