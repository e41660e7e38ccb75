use anychess::client::{
    apply_event, display_direction, play_response, rotation_choice, staged_move, version_matches,
    MyRooms, PlayResponse,
};
use anychess::net::{ChessEvent, ClientMessage, RoomPlayer};
use anychess::server::{
    accepts_move, admit_connection, bearer_token, create_step, creator_key, react, CreateStep,
    InsertOutcome, Reaction, Wakeup, play_outcome, prune_authorized, room_code,
    ErrorKind,
};
use anychess::{Board, ChessMove, Color, Direction, Kind, LadderState, Piece, Pos};

fn seat(id: i32) -> RoomPlayer {
    RoomPlayer {
        id,
        is_white: true,
        token: String::new(),
        connection_token: String::new(),
        code: None,
    }
}

#[test]
fn error_statuses() {
    assert_eq!(ErrorKind::NotFound.status(), 404);
    assert_eq!(ErrorKind::Gone.status(), 410);
    assert_eq!(ErrorKind::Unauthorized.status(), 401);
    assert_eq!(ErrorKind::Rejected.status(), 500);
    assert_eq!(ErrorKind::Sqlx.status(), 500);
}

#[test]
fn connections_are_capped() {
    assert!(admit_connection(0));
    assert!(admit_connection(9999));
    assert!(!admit_connection(10000));
}

#[test]
fn room_codes_pick_from_the_charset() {
    assert_eq!(room_code(&[0, 1, 28, 29, 255]), "bc9b4");
    assert_eq!(room_code(&[]), "");
}

#[test]
fn bearer_tokens() {
    assert_eq!(bearer_token(b"Bearer abc.def"), Some(b"abc.def".to_vec()));
    assert_eq!(bearer_token(b"Bearer a b"), Some(b"a b".to_vec()));
    assert_eq!(bearer_token(b"Basic abc"), None);
    assert_eq!(bearer_token(b"Bearer"), None);
    assert_eq!(bearer_token(b"Bearer "), Some(Vec::new()));
}

#[test]
fn prune_password() {
    assert!(prune_authorized(b"Bearer hunter2", b"hunter2"));
    assert!(prune_authorized(b"x hunter2", b"hunter2"));
    assert!(!prune_authorized(b"hunter2", b"hunter2"));
    assert!(!prune_authorized(b"Bearer hunter3", b"hunter2"));
}

#[test]
fn play_answers() {
    assert_eq!(play_outcome(3, 4, Some(true)), Err(ErrorKind::Unauthorized));
    assert_eq!(play_outcome(3, 3, Some(false)), Err(ErrorKind::Gone));
    assert_eq!(play_outcome(3, 3, None), Err(ErrorKind::Gone));
    assert_eq!(play_outcome(3, 3, Some(true)), Ok(()));
}

#[test]
fn server_refuses_the_opponents_pieces() {
    let board = Board::new();
    let m = ChessMove::new((1, 0), (2, 0));
    assert!(accepts_move(&board, Color::White, &m));
    assert!(!accepts_move(&board, Color::Black, &m));
    assert!(!accepts_move(&board, Color::White, &ChessMove::new((1, 0), (4, 0))));
    assert!(!accepts_move(&board, Color::White, &ChessMove::new((9, 0), (4, 0))));
}

#[test]
fn version_check() {
    assert!(version_matches("0.8"));
    assert!(!version_matches("0.7"));
    assert!(!version_matches("0.80"));
}

#[test]
fn staged_moves_promote_pawns_to_queens() {
    let board = Board::new();
    let m = staged_move(&board, Pos { rank: 6, file: 0 }, Pos { rank: 0, file: 0 });
    assert_eq!(m.promotion, Some(Kind::Queen));
    let m = staged_move(&board, Pos { rank: 1, file: 0 }, Pos { rank: 2, file: 0 });
    assert_eq!(m.promotion, None);
    let m = staged_move(&board, Pos { rank: 0, file: 0 }, Pos { rank: 7, file: 0 });
    assert_eq!(m.promotion, None);
}

#[test]
fn pieces_are_drawn_for_the_viewer() {
    let mut p = Piece {
        kind: Kind::Pawn,
        color: Color::White,
        direction: Direction::Up,
        moved: false,
        ladder: LadderState::Unused,
        ladder_countdown: 0,
    };
    assert_eq!(display_direction(&p, Color::White), Direction::Up);
    assert_eq!(display_direction(&p, Color::Black), Direction::Up);
    p.direction = Direction::Left;
    assert_eq!(display_direction(&p, Color::White), Direction::Left);
    assert_eq!(display_direction(&p, Color::Black), Direction::Right);
    p.color = Color::Black;
    p.direction = Direction::Down;
    assert_eq!(display_direction(&p, Color::White), Direction::Up);
    assert_eq!(display_direction(&p, Color::Black), Direction::Up);
}

#[test]
fn rotation_buttons() {
    assert_eq!(rotation_choice(Direction::Up, Direction::Left), Direction::Left);
    assert_eq!(rotation_choice(Direction::Up, Direction::Right), Direction::Right);
    assert_eq!(rotation_choice(Direction::Down, Direction::Left), Direction::Right);
}

#[test]
fn play_response_statuses() {
    assert_eq!(play_response(200), PlayResponse::Token);
    assert_eq!(play_response(410), PlayResponse::Deleted);
    assert_eq!(play_response(500), PlayResponse::Failed);
}

#[test]
fn rooms_are_removed_by_id() {
    let mut rooms = MyRooms(vec![seat(1), seat(2), seat(2), seat(3)]);
    rooms.remove_room(2);
    assert_eq!(rooms.0.iter().map(|r| r.id).collect::<Vec<_>>(), vec![1, 2, 3]);
    rooms.remove_room(9);
    assert_eq!(rooms.0.len(), 3);
}

#[test]
fn client_applies_server_events() {
    let mut board = Board::new();
    assert!(apply_event(&mut board, &ChessEvent::Start));
    assert!(!apply_event(&mut board, &ChessEvent::Move(ChessMove::new((1, 0), (2, 0)))));
    assert_eq!(board.turn, Color::Black);
    assert!(!apply_event(&mut board, &ChessEvent::GameEnded));
}

#[test]
fn creators_are_keyed_by_their_address() {
    let one = creator_key(&vec![b"10.0.0.1".to_vec()], b"secret");
    assert!(one.is_some());
    assert_eq!(one, creator_key(&vec![b" 10.0.0.1 ".to_vec()], b"secret"));
    assert_ne!(one, creator_key(&vec![b"10.0.0.2".to_vec()], b"secret"));
    assert_ne!(one, creator_key(&vec![b"10.0.0.1".to_vec()], b"other"));
    assert!(creator_key(&vec![b"::1".to_vec()], b"secret").is_some());
    assert_eq!(creator_key(&vec![], b"secret"), None);
    assert_eq!(creator_key(&vec![b"not an address".to_vec()], b"secret"), None);
    assert_eq!(
        creator_key(&vec![b"10.0.0.1".to_vec(), b"10.0.0.2".to_vec()], b"secret"),
        None
    );
    assert_eq!(creator_key(&vec![b"10.0.0.1\n".to_vec()], b"secret"), None);
}

#[test]
fn connections_react_to_what_wakes_them() {
    let m = ChessMove::new((1, 0), (2, 0));
    assert_eq!(react(Wakeup::PingDue), (Reaction::Ping, false));
    assert_eq!(
        react(Wakeup::Received(Some(ClientMessage::Move(m)))),
        (Reaction::Handle(ClientMessage::Move(m)), true)
    );
    assert_eq!(react(Wakeup::Received(None)), (Reaction::Stop, true));
    assert_eq!(
        react(Wakeup::Broadcast(ChessEvent::Start)),
        (Reaction::Forward(ChessEvent::Start), false)
    );
    assert_eq!(react(Wakeup::IdleTimeout), (Reaction::Close, false));
}

#[test]
fn creating_a_room_retries_taken_codes() {
    assert_eq!(create_step(InsertOutcome::Stored(4)), CreateStep::Created(4));
    assert_eq!(create_step(InsertOutcome::CodeTaken), CreateStep::Retry);
    assert_eq!(create_step(InsertOutcome::CapReached), CreateStep::Reject);
    assert_eq!(create_step(InsertOutcome::Failed), CreateStep::Fail);
}

fn fnv1a(bytes: &[u8]) -> u64 {
    let mut h: u64 = 0xcbf29ce484222325;
    for b in bytes {
        h = (h ^ *b as u64).wrapping_mul(0x100000001b3);
    }
    h
}

#[test]
fn creator_keys_hash_the_address_with_the_secret() {
    assert_eq!(fnv1a(b"a"), 0xaf63dc4c8601ec8c);
    assert_eq!(
        creator_key(&vec![b" 10.0.0.1".to_vec()], b"secret"),
        Some(fnv1a(b"10.0.0.1\xffsecret") as i64)
    );
    assert_eq!(
        creator_key(&vec![b"::1".to_vec()], b""),
        Some(fnv1a(b"::1\xff") as i64)
    );
}
