use std::str::FromStr;

use anychess::client::{apply_event, ClientState, Marker, MoveState, Staging};
use anychess::net::ChessEvent;
use anychess::server::{accepts_move, new_room_code};
use anychess::table::Table;
use anychess::{Board, ChessMove, Color, Direction, Kind, Pos};

fn at(rank: i32, file: i32) -> Pos {
    Pos { rank, file }
}

fn index(rank: usize, file: usize) -> usize {
    rank * 8 + file
}

#[test]
fn client_state_starts_with_nothing_picked() {
    let s = ClientState::blank();
    assert_eq!(s.room, 0);
    assert_eq!(s.color, Color::White);
    assert!(!s.move_allowed);
    assert_eq!(s.move_state, MoveState::Idle);
    assert!(!s.connected);
    assert_eq!(s.board.render(), Board::new().render());

    let white = ClientState::new(3, Color::White, Board::new());
    assert_eq!(white.room, 3);
    assert!(white.move_allowed);
    let black = ClientState::new(3, Color::Black, Board::new());
    assert!(!black.move_allowed);
}

#[test]
fn picking_a_pawn_marks_where_it_goes() {
    let mut s = ClientState::new(1, Color::White, Board::new());
    match s.stage(Some(at(1, 4))) {
        Staging::Show { at: shown, rotate, markers } => {
            assert_eq!(shown, at(1, 4));
            assert!(rotate);
            assert_eq!(markers.len(), 64);
            assert_eq!(markers[index(2, 4)], Marker::Move);
            assert_eq!(markers[index(3, 4)], Marker::Move);
            assert_eq!(markers[index(4, 4)], Marker::Hidden);
            assert_eq!(markers[index(1, 4)], Marker::Hidden);
            assert_eq!(markers[index(6, 4)], Marker::Hidden);
        }
        _ => panic!("the picked pawn is shown"),
    }
    assert_eq!(s.move_state, MoveState::Start(at(1, 4)));

    match s.stage(Some(at(3, 4))) {
        Staging::Play(m) => assert_eq!(m, ChessMove::new((1, 4), (3, 4))),
        _ => panic!("the second click plays the move"),
    }
    assert_eq!(s.move_state, MoveState::Start(at(1, 4)));

    s.make_move(&ChessMove::new((1, 4), (3, 4)));
    assert_eq!(s.move_state, MoveState::Idle);
    assert!(!s.move_allowed);
    assert_eq!(s.board.turn, Color::Black);
    assert!(s.board.at(at(3, 4)).is_some());
    assert!(s.board.at(at(1, 4)).is_none());
}

#[test]
fn a_click_that_completes_no_move_picks_again() {
    let mut s = ClientState::new(1, Color::White, Board::new());
    s.stage(Some(at(1, 4)));
    match s.stage(Some(at(5, 4))) {
        Staging::Show { at: shown, rotate, markers } => {
            assert_eq!(shown, at(5, 4));
            assert!(!rotate);
            assert!(markers.iter().all(|m| *m == Marker::Hidden));
        }
        _ => panic!("the clicked square is picked"),
    }
    assert_eq!(s.move_state, MoveState::Start(at(5, 4)));
    assert!(matches!(s.stage(None), Staging::Clear));
    assert_eq!(s.move_state, MoveState::Idle);
}

#[test]
fn nothing_is_picked_out_of_turn() {
    let mut s = ClientState::new(1, Color::Black, Board::new());
    assert!(matches!(s.stage(Some(at(6, 4))), Staging::Clear));
    assert_eq!(s.move_state, MoveState::Idle);
    assert!(s.promotion(Kind::Queen).is_none());
    assert!(s.rotation(Direction::Left).is_none());
}

#[test]
fn taking_is_marked() {
    let board = Board::from_str("8/p7/8/8/8/8/8/R7").unwrap();
    let mut s = ClientState::new(1, Color::White, board);
    match s.stage(Some(at(0, 0))) {
        Staging::Show { rotate, markers, .. } => {
            assert!(!rotate);
            assert_eq!(markers[index(6, 0)], Marker::Take);
            assert_eq!(markers[index(3, 0)], Marker::Move);
            assert_eq!(markers[index(0, 7)], Marker::Move);
            // A slide goes on past an enemy piece.
            assert_eq!(markers[index(7, 0)], Marker::Move);
            assert_eq!(markers[index(1, 1)], Marker::Hidden);
            assert_eq!(markers.iter().filter(|m| **m != Marker::Hidden).count(), 14);
        }
        _ => panic!("the rook is shown"),
    }
}

#[test]
fn a_pawn_on_the_last_rank_asks_for_its_piece() {
    let board = Board::from_str("8/P7/8/8/8/8/8/8").unwrap();
    let mut s = ClientState::new(1, Color::White, board);
    s.stage(Some(at(6, 0)));
    match s.stage(Some(at(7, 0))) {
        Staging::AskPromotion(to) => assert_eq!(to, at(7, 0)),
        _ => panic!("the promotion is asked for"),
    }
    assert_eq!(s.move_state, MoveState::Promote { from: at(6, 0), to: at(7, 0) });
    assert_eq!(
        s.promotion(Kind::Knight),
        Some(ChessMove::new((6, 0), (7, 0)).promote(Kind::Knight))
    );
}

#[test]
fn the_picked_pawn_turns() {
    let mut s = ClientState::new(1, Color::White, Board::new());
    s.stage(Some(at(1, 2)));
    assert_eq!(s.rotation(Direction::Left), Some(ChessMove::rotate((1, 2), Direction::Left)));
    assert_eq!(s.rotation(Direction::Right), Some(ChessMove::rotate((1, 2), Direction::Right)));
}

#[test]
fn syncing_follows_the_turn() {
    let mut s = ClientState::new(1, Color::Black, Board::new());
    let mut board = Board::new();
    ChessMove::new((1, 0), (2, 0)).exec(&mut board);
    s.sync(&board);
    assert!(s.move_allowed);
    assert!(s.board.at(at(2, 0)).is_some());
}

#[test]
fn new_room_codes_have_five_letters_of_the_charset() {
    for _ in 0..20 {
        let code = new_room_code();
        assert_eq!(code.len(), 5);
        assert!(code.chars().all(|c| "bcdfghjklmnpqrstvwxyz23456789".contains(c)));
    }
}

#[test]
fn the_server_takes_what_the_client_offers() {
    let board = Board::new();
    let mut s = ClientState::new(1, Color::White, board.clone());
    s.stage(Some(at(0, 1)));
    match s.stage(Some(at(2, 2))) {
        Staging::Play(m) => assert!(accepts_move(&board, Color::White, &m)),
        _ => panic!("the knight's move is offered"),
    }
}

#[test]
fn server_and_client_replay_alike() {
    let events = vec![
        ChessEvent::Start,
        ChessEvent::Move(ChessMove::new((1, 4), (3, 4))),
        ChessEvent::Move(ChessMove::new((6, 3), (4, 3))),
        ChessEvent::Move(ChessMove::new((3, 4), (4, 3))),
        ChessEvent::Move(ChessMove::rotate((6, 0), Direction::Left)),
    ];
    let mut table = Table::new(9);
    table.load(events.clone());
    let mut board = Board::new();
    let mut started = false;
    for ev in &events {
        started |= apply_event(&mut board, ev);
    }
    assert!(started);
    assert_eq!(board.render(), table.board.render());
    assert_eq!(board.turn, table.board.turn);
    assert_eq!(board.en_passant(), table.board.en_passant());
}

#[test]
fn the_info_texts_follow_the_game() {
    let s = ClientState::blank();
    let info = s.info();
    assert_eq!(info.your_color, "You play as white");
    assert_eq!(info.whose_turn, "It's your turn");
    assert_eq!(info.victory, "");
    assert!(info.show_disconnected);

    let mut board = Board::from_str("kR/K").unwrap();
    ChessMove::new((7, 1), (7, 0)).exec(&mut board);
    let mut s = ClientState::new(2, Color::Black, board);
    s.connected = true;
    let info = s.info();
    assert_eq!(info.your_color, "You play as black");
    assert_eq!(info.whose_turn, "It's your turn");
    assert_eq!(info.victory, "White won!");
    assert!(!info.show_disconnected);
}
