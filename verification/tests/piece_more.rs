use chess_check::board::{initial, Board};
use chess_check::error::ParseError;
use chess_check::piece::{
    black_knight, black_pawn, blank, can_bishop_move, can_king_move, can_knight_move,
    can_pawn_move, can_queen_move, can_rook_move, from_str, is_char, is_path_clear, kind_of,
    white_bishop, white_king, white_knight, white_pawn, white_queen, white_rook, Kind, Piece,
    Player,
};
use chess_check::squares::{from_str as square, Square};

fn sq(name: &str) -> Square {
    square(name).unwrap()
}

/// A board with nothing on it.
fn empty_board() -> Board {
    let mut b = initial();
    for col in 0..8u8 {
        for row in 0..8u8 {
            b = b.set(Square::new(col, row), blank());
        }
    }
    b
}

#[test]
fn designators_name_kinds_for_either_player() {
    assert_eq!(from_str("", Player::Black), Ok(black_pawn()));
    assert_eq!(from_str("N", Player::Black), Ok(black_knight()));
    assert_eq!(from_str("K", Player::White), Ok(white_king()));
}

#[test]
fn other_texts_are_no_designators() {
    assert_eq!(from_str("P", Player::White), Err(ParseError::Piece));
    assert_eq!(from_str("n", Player::White), Err(ParseError::Piece));
    assert_eq!(from_str("NN", Player::White), Err(ParseError::Piece));
    assert_eq!(from_str(" ", Player::White), Err(ParseError::Piece));
    assert_eq!(from_str("_", Player::White), Err(ParseError::Piece));
}

#[test]
fn is_char_accepts_exactly_the_five_designators() {
    for s in ["N", "B", "R", "Q", "K"] {
        assert!(is_char(s));
    }
    for s in ["", "P", "n", "k", "NB", "a", "1", "x", "-"] {
        assert!(!is_char(s));
    }
    assert_eq!(kind_of('Q'), Some(Kind::Queen));
    assert_eq!(kind_of('R'), Some(Kind::Rook));
    assert_eq!(kind_of('B'), Some(Kind::Bishop));
    assert_eq!(kind_of('q'), None);
}

#[test]
fn symbols_are_upper_case_for_white_and_lower_case_for_black() {
    let kinds = [
        Kind::Blank,
        Kind::Pawn,
        Kind::Knight,
        Kind::Bishop,
        Kind::Rook,
        Kind::Queen,
        Kind::King,
    ];
    let white: Vec<&str> = kinds.iter().map(|k| k.to_white_string()).collect();
    let black: Vec<&str> = kinds.iter().map(|k| k.to_black_string()).collect();
    assert_eq!(white, vec!["_", "P", "N", "B", "R", "Q", "K"]);
    assert_eq!(black, vec!["_", "p", "n", "b", "r", "q", "k"]);
    for k in kinds {
        assert_eq!(k.to_string(Player::White), k.to_white_string());
        assert_eq!(k.to_string(Player::Black), k.to_black_string());
    }
    assert_eq!(white_queen().to_string(), "Q");
    assert_eq!(black_knight().to_string(), "n");
    assert_eq!(blank().to_string(), "_");
}

#[test]
fn flip_changes_the_player_and_keeps_the_kind() {
    assert_eq!(Player::White.flip(), Player::Black);
    assert_eq!(Player::Black.flip(), Player::White);
    assert_eq!(black_pawn().flip(), white_pawn());
    assert_eq!(white_rook().flip().flip(), white_rook());
    assert_eq!(blank().flip().kind, Kind::Blank);
}

#[test]
fn a_blank_piece_never_moves() {
    let b = initial();
    assert!(!blank().can_move(b, sq("e3"), sq("e4")));
    let black_blank = Piece { player: Player::Black, kind: Kind::Blank };
    assert!(!black_blank.can_move(b, sq("e4"), sq("e5")));
}

#[test]
fn knight_from_b1_on_the_initial_board() {
    let b = initial();
    let n = white_knight();
    assert!(n.can_move(b, sq("b1"), sq("a3")));
    assert!(n.can_move(b, sq("b1"), sq("c3")));
    // d2 has the shape of a jump; what stands there is for the move to check.
    assert!(n.can_move(b, sq("b1"), sq("d2")));
    assert!(!n.can_move(b, sq("b1"), sq("b3")));
    assert!(!n.can_move(b, sq("b1"), sq("c4")));
    assert!(!n.can_move(b, sq("b1"), sq("b1")));
}

#[test]
fn knight_moves_are_the_eight_jumps() {
    let b = empty_board();
    let from = sq("d4");
    let jumps = ["b3", "b5", "c2", "c6", "e2", "e6", "f3", "f5"];
    for col in 0..8u8 {
        for row in 0..8u8 {
            let to = Square::new(col, row);
            let expected = jumps.contains(&to.to_string().as_str());
            assert_eq!(can_knight_move(b, from, to), expected, "{:?}", to);
        }
    }
}

#[test]
fn king_moves_one_step_in_any_direction() {
    let b = empty_board();
    let from = sq("d4");
    let steps = ["c3", "c4", "c5", "d3", "d5", "e3", "e4", "e5"];
    for col in 0..8u8 {
        for row in 0..8u8 {
            let to = Square::new(col, row);
            let expected = steps.contains(&to.to_string().as_str());
            assert_eq!(can_king_move(b, from, to), expected, "{:?}", to);
            assert_eq!(white_king().can_move(b, from, to), expected);
        }
    }
}

#[test]
fn sliding_pieces_on_an_empty_board() {
    let b = empty_board();
    let from = sq("d4");
    for col in 0..8i32 {
        for row in 0..8i32 {
            let to = Square::new(col as u8, row as u8);
            let dc = (col - 3).abs();
            let dr = (row - 3).abs();
            let diagonal = dc == dr && dc > 0;
            let straight = (dc == 0) != (dr == 0);
            assert_eq!(can_bishop_move(b, from, to), diagonal, "{:?}", to);
            assert_eq!(can_rook_move(b, from, to), straight, "{:?}", to);
            assert_eq!(can_queen_move(b, from, to), diagonal || straight, "{:?}", to);
            assert_eq!(white_bishop().can_move(b, from, to), diagonal);
            assert_eq!(white_rook().can_move(b, from, to), straight);
            assert_eq!(white_queen().can_move(b, from, to), diagonal || straight);
        }
    }
}

#[test]
fn a_piece_in_the_way_stops_a_slide() {
    let b = empty_board().set(sq("f4"), black_pawn()).set(sq("f6"), white_pawn());
    // Along the rank: f4 is in the way of d4-h4, and the target itself is not looked at.
    assert!(can_rook_move(b, sq("d4"), sq("e4")));
    assert!(can_rook_move(b, sq("d4"), sq("f4")));
    assert!(!can_rook_move(b, sq("d4"), sq("g4")));
    assert!(!can_rook_move(b, sq("d4"), sq("h4")));
    assert!(!can_queen_move(b, sq("h4"), sq("d4")));
    // Along the diagonal: f6 is in the way of d4-h8.
    assert!(can_bishop_move(b, sq("d4"), sq("f6")));
    assert!(!can_bishop_move(b, sq("d4"), sq("g7")));
    assert!(!can_bishop_move(b, sq("h8"), sq("d4")));
    assert!(!can_queen_move(b, sq("d4"), sq("h8")));
    // Down the file, nothing is in the way.
    assert!(can_rook_move(b, sq("d8"), sq("d1")));
    assert!(can_queen_move(b, sq("a8"), sq("h1")));
}

#[test]
fn bishop_c1_to_h6_is_blocked_until_the_pawn_leaves() {
    let b = initial();
    assert!(!can_bishop_move(b, sq("c1"), sq("h6")));
    assert!(!white_bishop().can_move(b, sq("c1"), sq("h6")));
    let opened = b.set(sq("d2"), blank()).set(sq("d3"), white_pawn());
    assert!(can_bishop_move(opened, sq("c1"), sq("h6")));
    assert!(white_bishop().can_move(opened, sq("c1"), sq("h6")));
}

#[test]
fn path_check_fails_off_the_lines() {
    let b = empty_board();
    assert!(is_path_clear(&b, sq("a1"), sq("h8")));
    assert!(is_path_clear(&b, sq("a1"), sq("a8")));
    assert!(is_path_clear(&b, sq("h1"), sq("a1")));
    assert!(is_path_clear(&b, sq("c3"), sq("c3")));
    assert!(!is_path_clear(&b, sq("a1"), sq("b3")));
    assert!(!is_path_clear(&b, sq("a1"), sq("h7")));
    let blocked = b.set(sq("d4"), white_pawn());
    assert!(!is_path_clear(&blocked, sq("a1"), sq("h8")));
    assert!(is_path_clear(&blocked, sq("a1"), sq("d4")));
    assert!(is_path_clear(&blocked, sq("d4"), sq("h8")));
}

#[test]
fn pawn_steps_forward_onto_empty_squares_only() {
    let b = initial();
    assert!(can_pawn_move(b, Player::White, sq("e2"), sq("e3")));
    assert!(can_pawn_move(b, Player::Black, sq("e7"), sq("e6")));
    assert!(!can_pawn_move(b, Player::White, sq("e2"), sq("e1")));
    assert!(!can_pawn_move(b, Player::Black, sq("e7"), sq("e8")));
    assert!(!can_pawn_move(b, Player::White, sq("e2"), sq("e2")));
    let facing = b.set(sq("e3"), black_pawn());
    assert!(!can_pawn_move(facing, Player::White, sq("e2"), sq("e3")));
}

#[test]
fn pawn_double_step_needs_the_starting_rank_and_two_empty_squares() {
    let b = initial();
    assert!(can_pawn_move(b, Player::White, sq("e2"), sq("e4")));
    assert!(can_pawn_move(b, Player::Black, sq("e7"), sq("e5")));
    // The square passed is occupied.
    let passed = b.set(sq("e3"), black_knight());
    assert!(!can_pawn_move(passed, Player::White, sq("e2"), sq("e4")));
    // The square reached is occupied.
    let reached = b.set(sq("e4"), black_knight());
    assert!(!can_pawn_move(reached, Player::White, sq("e2"), sq("e4")));
    // Not from the starting rank: neither after one step nor after two.
    let stepped = b.set(sq("e2"), blank()).set(sq("e3"), white_pawn());
    assert!(!can_pawn_move(stepped, Player::White, sq("e3"), sq("e5")));
    let doubled = b.set(sq("e2"), blank()).set(sq("e4"), white_pawn());
    assert!(!can_pawn_move(doubled, Player::White, sq("e4"), sq("e6")));
    // White's starting rank is not Black's.
    let white_on_seven = empty_board().set(sq("c7"), white_pawn());
    assert!(!can_pawn_move(white_on_seven, Player::White, sq("c6"), sq("c8")));
    let black_on_two = empty_board().set(sq("c2"), black_pawn());
    assert!(!can_pawn_move(black_on_two, Player::Black, sq("c3"), sq("c1")));
    let black_on_seven = empty_board().set(sq("c7"), black_pawn());
    assert!(can_pawn_move(black_on_seven, Player::Black, sq("c7"), sq("c5")));
    assert!(!can_pawn_move(black_on_seven, Player::White, sq("c7"), sq("c5")));
    // Three steps are never a pawn move.
    assert!(!can_pawn_move(b, Player::White, sq("e2"), sq("e5")));
}

#[test]
fn pawn_steps_to_the_side_only_to_take() {
    let b = initial();
    assert!(!can_pawn_move(b, Player::White, sq("e2"), sq("d3")));
    assert!(!can_pawn_move(b, Player::White, sq("e2"), sq("f3")));
    let target = b.set(sq("d3"), black_pawn());
    assert!(can_pawn_move(target, Player::White, sq("e2"), sq("d3")));
    assert!(!can_pawn_move(target, Player::White, sq("e2"), sq("f3")));
    assert!(!can_pawn_move(target, Player::White, sq("e2"), sq("c3")));
    let down = b.set(sq("f6"), white_knight());
    assert!(can_pawn_move(down, Player::Black, sq("e7"), sq("f6")));
    assert!(can_pawn_move(down, Player::Black, sq("g7"), sq("f6")));
    assert!(!can_pawn_move(down, Player::White, sq("e7"), sq("f6")));
}
