use std::str::FromStr;

use anychess::table::Table;
use anychess::net::ChessEvent;
use anychess::{Board, ChessError, ChessMove, Color, Direction, Kind, LadderState, Pos};

#[test]
fn colour_and_direction_turns() {
    assert_eq!(!Color::White, Color::Black);
    assert_eq!(!!Color::Black, Color::Black);
    assert_eq!(Direction::Up.left(), Direction::Left);
    assert_eq!(Direction::Up.right(), Direction::Right);
    assert_eq!(Direction::Left.right(), Direction::Up);
    assert_eq!(Direction::Down.left().left(), Direction::Up);
    assert_eq!(!Direction::Left, Direction::Right);
    for d in [Direction::Up, Direction::Left, Direction::Right, Direction::Down] {
        assert_eq!(d.left().right(), d);
        assert_eq!(d.right().left(), d);
        assert_eq!(d.left().left(), !d);
    }
}

#[test]
fn positions_add_and_turn() {
    let p = Pos { rank: 1, file: -1 };
    assert_eq!(p * Direction::Up, p);
    assert_eq!(p * Direction::Left, Pos { rank: -1, file: -1 });
    assert_eq!(p * Direction::Down, Pos { rank: -1, file: 1 });
    assert_eq!(p * Direction::Right, Pos { rank: 1, file: 1 });
    assert_eq!((p * Direction::Left) * Direction::Right, p);
    assert_eq!(Pos::from((2, 3)) + Pos { rank: 1, file: 1 }, Pos { rank: 3, file: 4 });
    assert!(Kind::Pawn.is_pawn());
    assert!(!Kind::Knook.is_pawn());
    assert!(Color::White.is_white());
}

#[test]
fn moves_are_built_as_said() {
    let m = ChessMove::new((1, 2), (3, 4));
    assert_eq!(m.from, Pos { rank: 1, file: 2 });
    assert_eq!(m.to, Pos { rank: 3, file: 4 });
    assert_eq!(m.promotion, None);
    assert_eq!(m.promote(Kind::Rook).promotion, Some(Kind::Rook));
    let l = ChessMove::ladder((5, 5));
    assert!(l.use_ladder);
    assert_eq!(l.from, l.to);
    let r = ChessMove::rotate((2, 2), Direction::Left);
    assert_eq!(r.direction, Some(Direction::Left));
    assert!(!r.use_ladder);
}

#[test]
fn starting_position_text() {
    let board = Board::new();
    let text = board.render();
    assert_eq!(
        text,
        "rnbqkbnr\npppppppp\n........\n........\n........\n........\nPPPPPPPP\nRNBQKBNR\n"
    );
    let parsed = Board::from_str("rnbqkbnr/pppppppp/////PPPPPPPP/RNBQKBNR").unwrap();
    assert_eq!(parsed.render(), text);
    assert_eq!(Board::empty().render(), "........\n".repeat(8));
}

#[test]
fn placement_text_is_read() {
    let board = Board::from_str("2k5/8/8/8/8/8/8/K7 w - -").unwrap();
    assert_eq!(board.at(Pos { rank: 7, file: 2 }).unwrap().kind, Kind::King);
    assert_eq!(board.at(Pos { rank: 7, file: 2 }).unwrap().color, Color::Black);
    assert_eq!(board.at(Pos { rank: 0, file: 0 }).unwrap().color, Color::White);
    assert_eq!(board.at(Pos { rank: 0, file: 0 }).unwrap().direction, Direction::Up);
    assert_eq!(board.at(Pos { rank: 7, file: 2 }).unwrap().direction, Direction::Down);
    assert!(Board::from_str("x").is_err());
    assert!(Board::from_str("8P").is_err());
    assert!(Board::from_str("////////").is_err());
    assert!(Board::parse_fen(b"ppp").is_ok());
    assert!(Board::parse_fen(b"pq?").is_err());
}

#[test]
fn double_step_opens_en_passant() {
    let mut board = Board::from_str("//////P").unwrap();
    board.rules.move_after_win = true;
    ChessMove::new((1, 0), (3, 0)).check(&board).unwrap();
    ChessMove::new((1, 0), (3, 0)).exec(&mut board);
    assert_eq!(board.en_passant(), Some(Pos { rank: 2, file: 0 }));
    assert_eq!(board.turn, Color::Black);
    assert!(board.at(Pos { rank: 3, file: 0 }).unwrap().moved);
}

#[test]
fn knight_takes_own_rook_to_become_a_knook() {
    let mut board = Board::from_str("N/2R").unwrap();
    board.rules.move_after_win = true;
    let m = ChessMove::new((7, 0), (6, 2));
    m.check(&board).unwrap();
    m.exec(&mut board);
    let p = board.at(Pos { rank: 6, file: 2 }).unwrap();
    assert_eq!(p.kind, Kind::Knook);
    assert_eq!(p.color, Color::White);
    assert!(board.at(Pos { rank: 7, file: 0 }).is_none());
}

#[test]
fn ladder_is_built_and_climbed() {
    let mut board = Board::from_str("N//////k").unwrap();
    board.rules.move_order = false;
    board.rules.move_after_win = true;
    let plays = [
        ChessMove::ladder((7, 0)),
        ChessMove::new((1, 0), (0, 0)),
        ChessMove::new((7, 0), (5, 1)),
        ChessMove::new((0, 0), (1, 0)),
        ChessMove::new((5, 1), (3, 2)),
        ChessMove::new((1, 0), (0, 0)),
        ChessMove::new((3, 2), (1, 3)),
    ];
    for m in plays {
        assert_eq!(m.check(&board), Ok(()));
        m.exec(&mut board);
    }
    let ladders = board.ladder_list();
    assert_eq!(ladders.len(), 1);
    assert!(ladders[0].built);
    assert_eq!(ladders[0].start, Pos { rank: 7, file: 0 });
    assert_eq!(ladders[0].end, Pos { rank: 1, file: 3 });
    assert_eq!(board.at(Pos { rank: 1, file: 3 }).unwrap().ladder, LadderState::Spent);
    assert!(board.is_well_formed());
    ChessMove::new((1, 3), (7, 0)).check(&board).unwrap();
    assert_eq!(ChessMove::ladder((1, 3)).check(&board), Err(ChessError::Invalid));
}

#[test]
fn taking_the_last_king_wins() {
    let mut board = Board::from_str("kR/K").unwrap();
    ChessMove::new((7, 1), (7, 0)).exec(&mut board);
    assert_eq!(board.victory, Some(Color::White));
    assert!(ChessMove::new((6, 0), (5, 0)).check(&board).is_err());
}

#[test]
fn pawns_turn_on_their_square() {
    let mut board = Board::from_str("//////P").unwrap();
    board.rules.move_after_win = true;
    let m = ChessMove::rotate((1, 0), Direction::Right);
    m.check(&board).unwrap();
    m.exec(&mut board);
    assert_eq!(board.at(Pos { rank: 1, file: 0 }).unwrap().direction, Direction::Right);
    assert!(!board.at(Pos { rank: 1, file: 0 }).unwrap().moved);
    assert!(ChessMove::rotate((1, 0), Direction::Down).check(&board).is_err());
}

#[test]
fn table_replays_events() {
    let mut table = Table::new(7);
    assert_eq!(table.id, 7);
    table.load(vec![
        ChessEvent::Start,
        ChessEvent::Move(ChessMove::new((1, 4), (3, 4))),
        ChessEvent::Move(ChessMove::new((6, 4), (4, 4))),
    ]);
    assert_eq!(table.events.len(), 3);
    assert_eq!(table.board.turn, Color::White);
    assert!(table.board.at(Pos { rank: 3, file: 4 }).is_some());
    table.process_inner(ChessEvent::GameEnded);
    assert_eq!(table.events.len(), 4);
}

#[test]
fn a_pawn_on_the_last_step_promotes_to_any_of_five() {
    let board = Board::from_str("8/P7/8/8/8/8/8/8").unwrap();
    for k in [Kind::Rook, Kind::Knight, Kind::Bishop, Kind::Queen, Kind::King] {
        assert_eq!(ChessMove::new((6, 0), (7, 0)).promote(k).check(&board), Ok(()));
    }
    assert!(ChessMove::new((6, 0), (7, 0)).check(&board).is_err());
    assert!(ChessMove::new((6, 0), (7, 0)).promote(Kind::Pawn).check(&board).is_err());
    assert!(ChessMove::new((6, 0), (7, 0)).promote(Kind::Knook).check(&board).is_err());
}

#[test]
fn loading_in_two_parts_is_loading_at_once() {
    let a = vec![ChessEvent::Start, ChessEvent::Move(ChessMove::new((1, 4), (3, 4)))];
    let b = vec![
        ChessEvent::Move(ChessMove::new((6, 4), (4, 4))),
        ChessEvent::Move(ChessMove::rotate((1, 0), Direction::Right)),
    ];
    let mut split = Table::new(1);
    split.load(a.clone());
    split.load(b.clone());
    let mut whole = Table::new(1);
    whole.load(a.into_iter().chain(b).collect());
    assert_eq!(split.events, whole.events);
    assert_eq!(split.board.render(), whole.board.render());
    assert_eq!(split.board.turn, whole.board.turn);
}
