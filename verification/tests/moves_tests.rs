use chess_check::board::{initial, Style};
use chess_check::moves::apply;

// ======================================================
// Pawn Tests
// ======================================================

#[test]
fn moves_test_pawn_01() {
    let ms = vec!["a2-a3"];
    // Check move sequence
    check(ms,
r#"8|r|n|b|q|k|b|n|r|
7|p|p|p|p|p|p|p|p|
6|_|_|_|_|_|_|_|_|
5|_|_|_|_|_|_|_|_|
4|_|_|_|_|_|_|_|_|
3|P|_|_|_|_|_|_|_|
2|_|P|P|P|P|P|P|P|
1|R|N|B|Q|K|B|N|R|
  a b c d e f g h"#);    
}

#[test]
fn moves_test_pawn_02() {
 let ms = vec!["a2-a3","b7-b6"];
    // Check move sequence
    check(ms,
r#"8|r|n|b|q|k|b|n|r|
7|p|_|p|p|p|p|p|p|
6|_|p|_|_|_|_|_|_|
5|_|_|_|_|_|_|_|_|
4|_|_|_|_|_|_|_|_|
3|P|_|_|_|_|_|_|_|
2|_|P|P|P|P|P|P|P|
1|R|N|B|Q|K|B|N|R|
  a b c d e f g h"#);
}

#[test]
fn moves_test_pawn_03() {
 let ms = vec!["a2-a4","b7-b5"];
    // Check move sequence
    check(ms,
r#"8|r|n|b|q|k|b|n|r|
7|p|_|p|p|p|p|p|p|
6|_|_|_|_|_|_|_|_|
5|_|p|_|_|_|_|_|_|
4|P|_|_|_|_|_|_|_|
3|_|_|_|_|_|_|_|_|
2|_|P|P|P|P|P|P|P|
1|R|N|B|Q|K|B|N|R|
  a b c d e f g h"#);
}

#[test]
fn moves_test_pawn_04() {
    let ms = vec!["d2-d4","d7-d5",
          "e2-e4","d5xe4"];
    // Check move sequence
    check(ms,
r#"8|r|n|b|q|k|b|n|r|
7|p|p|p|_|p|p|p|p|
6|_|_|_|_|_|_|_|_|
5|_|_|_|_|_|_|_|_|
4|_|_|_|P|p|_|_|_|
3|_|_|_|_|_|_|_|_|
2|P|P|P|_|_|P|P|P|
1|R|N|B|Q|K|B|N|R|
  a b c d e f g h"#);
}

#[test]
fn moves_test_pawn_05() {
    let ms = vec!["d2-d3","d7-d5",
          "e2-e4","d5xe4",
          "d3xe4"];
    // Check move sequence
    check(ms,
r#"8|r|n|b|q|k|b|n|r|
7|p|p|p|_|p|p|p|p|
6|_|_|_|_|_|_|_|_|
5|_|_|_|_|_|_|_|_|
4|_|_|_|_|P|_|_|_|
3|_|_|_|_|_|_|_|_|
2|P|P|P|_|_|P|P|P|
1|R|N|B|Q|K|B|N|R|
  a b c d e f g h"#);
}

#[test]
fn moves_test_pawn_10() {
    let ms = vec!["e2-e5"];
    // Check failed
    assert!(apply(ms,initial()).is_none());
}

#[test]
fn moves_test_pawn_11() {
    let ms = vec!["e2-e3","c7-c6",
          "e3-e5"];
    // Check failed    
    assert!(apply(ms,initial()).is_none());
}

#[test]
fn moves_test_pawn_12() {
    let ms = vec!["e2-e4","e7-e5",
          "e4-d5"];
    // Check failed    
    assert!(apply(ms,initial()).is_none());
}

#[test]
fn moves_test_pawn_13() {
    let ms = vec!["e2-e4","e7-e5",
          "e4-e3"];
    // Check failed    
    assert!(apply(ms,initial()).is_none());
}

#[test]
fn moves_test_pawn_14() {
    let ms = vec!["a2-a3","d7-d5",
          "a3-a4","d5-d4",
          "a4-a5","d4-d3",
          "d2-d4"];
    // Check failed    
    assert!(apply(ms,initial()).is_none());
}

#[test]
fn moves_test_pawn_15() {
    let ms = vec!["a2-a3","d7-d5",
          "a3-a4","d5-d4",
          "d2-d4"];
    // Check failed    
    assert!(apply(ms,initial()).is_none());
}

#[test]
fn moves_test_pawn_16() {
    let ms = vec!["e2-e4","e7-e5",
          "e4xe5"];
    // Check failed    
    assert!(apply(ms,initial()).is_none());
}

#[test]
fn moves_test_pawn_17() {
    let ms = vec!["c2-c4","e7-e6",
          "c4xe6"];
    // Check failed    
    assert!(apply(ms,initial()).is_none());
}

#[test]
fn moves_test_pawn_18() {
    let ms = vec!["c2-c4","d7-d6",
          "c4xd6"];
    // Check failed    
    assert!(apply(ms,initial()).is_none());
}

#[test]
fn moves_test_pawn_19() {
    let ms = vec!["c2-c4","d7-d6",
          "c4xd5"];
    // Check failed    
    assert!(apply(ms,initial()).is_none());
}

#[test]
fn moves_test_pawn_20() {
    let ms = vec!["c2-c4","d7-d5",
          "c4-c5","d5-d4",
          "c5xd4"];
    // Check failed    
    assert!(apply(ms,initial()).is_none());
}

// ======================================================
// Knight Tests
// ======================================================

#[test]
fn moves_test_knight_01() {
    let ms = vec!["Nb1-a3"];
    // Check move sequence
    check(ms,
r#"8|r|n|b|q|k|b|n|r|
7|p|p|p|p|p|p|p|p|
6|_|_|_|_|_|_|_|_|
5|_|_|_|_|_|_|_|_|
4|_|_|_|_|_|_|_|_|
3|N|_|_|_|_|_|_|_|
2|P|P|P|P|P|P|P|P|
1|R|_|B|Q|K|B|N|R|
  a b c d e f g h"#);    
}

// ======================================================
// Helpers
// ======================================================

/// Checks that a sequence of moves from the initial board ends on the expected board,
/// drawn with a plain trailer.
fn check(moves: Vec<&str>, expected: &str) {
    let style = Style { space_for_blank: false, plain_trailer: true };
    let brd = apply(moves, initial()).unwrap().render(style);
    println!("Expected:\n{}\n", expected);
    println!("Actual:\n{}", brd);
    assert_eq!(brd, expected);
}
