use chess_check::piece::{
    black_bishop, black_king, black_knight, black_pawn, black_queen, black_rook, from_str,
    white_bishop, white_king, white_knight, white_pawn, white_queen, white_rook, Player,
};

#[test]
fn piece_test_01() {
    assert_eq!(from_str("",Player::White).unwrap(), white_pawn());
}

#[test]
fn piece_test_02() {
    assert_eq!(from_str("N",Player::White).unwrap(), white_knight());
}

#[test]
fn piece_test_03() {
    assert_eq!(from_str("B",Player::White).unwrap(), white_bishop());
}

#[test]
fn piece_test_04() {
    assert_eq!(from_str("R",Player::White).unwrap(), white_rook());
}

#[test]
fn piece_test_05() {
    assert_eq!(from_str("Q",Player::White).unwrap(), white_queen());
}

#[test]
fn piece_test_06() {
    assert_eq!(from_str("K",Player::White).unwrap(), white_king());
}

#[test]
fn piece_test_07() {
    assert_eq!(white_pawn().flip(), black_pawn());
}

#[test]
fn piece_test_08() {
    assert_eq!(white_knight().flip(), black_knight());
}

#[test]
fn piece_test_09() {
    assert_eq!(white_bishop().flip(), black_bishop());
}

#[test]
fn piece_test_10() {
    assert_eq!(white_rook().flip(), black_rook());
}

#[test]
fn piece_test_11() {
    assert_eq!(white_queen().flip(), black_queen());
}

#[test]
fn piece_test_12() {
    assert_eq!(white_king().flip(), black_king());
}

#[test]
fn test_13() {
    assert!(from_str("e",Player::White).is_err());
}

#[test]
fn test_14() {
    assert!(from_str("p",Player::White).is_err());
}
