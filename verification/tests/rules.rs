use std::str::FromStr;

use anychess::{Board, ChessMove, Color, Kind};

#[test]
fn empty_squares_do_not_move() {
    let board = Board::empty();

    assert!(ChessMove::new((0, 0), (0, 0)).check(&board).is_err());
}

#[test]
fn pieces_cant_move_out_of_bounds() {
    let board = Board::from_str("P").unwrap();

    assert!(ChessMove::new((7, 0), (8, 0)).check(&board).is_err());
}

#[test]
fn cant_take_your_color() {
    let mut board = Board::from_str("pP/pP").unwrap();
    board.rules.move_order = false;

    assert!(ChessMove::new((7, 0), (6, 0)).check(&board).is_err());
    assert!(ChessMove::new((6, 1), (7, 1)).check(&board).is_err());
}

#[test]
fn move_order() {
    let mut board = Board::new();

    assert!(ChessMove::new((6, 0), (5, 0)).check(&board).is_err());
    ChessMove::new((1, 0), (2, 0)).exec(&mut board);
    assert!(ChessMove::new((1, 1), (2, 1)).check(&board).is_err());
}

#[test]
fn pawn_moves_only_up() {
    let mut board = Board::from_str("///Pp").unwrap();
    board.rules.move_order = false;
    board.rules.move_after_win = true;

    ChessMove::new((4, 0), (5, 0)).check(&board).unwrap();
    ChessMove::new((4, 0), (6, 0)).check(&board).unwrap();
    ChessMove::new((4, 1), (3, 1)).check(&board).unwrap();
    ChessMove::new((4, 0), (5, 0)).exec(&mut board);
    assert!(ChessMove::new((5, 0), (7, 0)).check(&board).is_err());
    assert!(ChessMove::new((5, 0), (6, 1)).check(&board).is_err());
}

#[test]
fn pawn_takes_only_diagonally() {
    let board = Board::from_str("pp/P").unwrap();

    assert!(ChessMove::new((6, 0), (7, 0)).check(&board).is_err());
    ChessMove::new((6, 0), (7, 1))
        .promote(Kind::Queen)
        .check(&board)
        .unwrap();
}

#[test]
fn knight_makes_an_l() {
    let board = Board::from_str("//4N").unwrap();

    assert!(ChessMove::new((5, 4), (7, 4)).check(&board).is_err());
    ChessMove::new((5, 4), (7, 3)).check(&board).unwrap();
}

#[test]
fn bishop_moves_in_a_cross() {
    let board = Board::from_str("//4B").unwrap();

    assert!(ChessMove::new((5, 4), (7, 4)).check(&board).is_err());
    ChessMove::new((5, 4), (7, 2)).check(&board).unwrap();
}

#[test]
fn rook_moves_in_a_plus() {
    let board = Board::from_str("//4R").unwrap();

    assert!(ChessMove::new((5, 4), (7, 2)).check(&board).is_err());
    ChessMove::new((5, 4), (7, 4)).check(&board).unwrap();
}

#[test]
fn queen_moves_anywhere() {
    let board = Board::from_str("//4Q").unwrap();

    assert!(ChessMove::new((5, 4), (7, 3)).check(&board).is_err());
    ChessMove::new((5, 4), (7, 4)).check(&board).unwrap();
    ChessMove::new((5, 4), (7, 2)).check(&board).unwrap();
}

#[test]
fn king_moves_anywhere_close() {
    let board = Board::from_str("//4K").unwrap();

    assert!(ChessMove::new((5, 4), (7, 2)).check(&board).is_err());
    ChessMove::new((5, 4), (6, 4)).check(&board).unwrap();
    ChessMove::new((5, 4), (6, 3)).check(&board).unwrap();
}

#[test]
fn en_passant_forced() {
    let mut board = Board::from_str("R////p//1P").unwrap();
    board.rules.move_after_win = true;

    assert!(ChessMove::new((7, 0), (7, 2)).check(&board).is_err());
    ChessMove::new((1, 1), (3, 1)).exec(&mut board);
    assert!(ChessMove::new((3, 0), (2, 0)).check(&board).is_err());
}

#[test]
fn en_passant() {
    let mut board = Board::from_str("R////p//1P").unwrap();
    board.rules.move_after_win = true;

    ChessMove::new((1, 1), (3, 1)).exec(&mut board);
    let m = ChessMove::new((3, 0), (2, 1));
    m.check(&board).unwrap();
    m.exec(&mut board);
    assert!(board.at((3, 1).into()).is_none());

    let mut board = Board::from_str("////pP").unwrap();
    board.turn = Color::Black;
    assert!(ChessMove::new((3, 0), (2, 1)).check(&board).is_err());
}

#[test]
fn cant_move_after_victory() {
    let mut board = Board::from_str("kRp").unwrap();

    let m = ChessMove::new((7, 1), (7, 0));
    m.exec(&mut board);

    assert!(ChessMove::new((7, 2), (6, 2)).check(&board).is_err());
}
