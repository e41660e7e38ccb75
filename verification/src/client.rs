//! Decisions that the game client takes: which move a click stages, how a
//! piece is shown, which way a pawn turns, which rooms it keeps, and how it
//! reads the server's answers.

use vstd::prelude::*;
use vstd::string::StringSliceAdditionalSpecFns;
use crate::board::{in_board, initial_view, piece_at, pos_of, well_formed, Board, BoardView};
use crate::chess_move::{plain_move, rotation_move, ChessMove};
use crate::rules::{after, keeps_form, ladders_before_start, legal, lookahead_safe, play, playable};
use crate::net::{ChessEvent, RoomPlayer};
use crate::piece::{reverse, turn_left, turn_right, Color, Direction, Kind, Piece, Pos};
use crate::table::{applied, sound_event};

verus! {

/// The protocol version that client and server must share.
pub const VERSION: &'static str = "0.8";

/// Whether the server's version is the client's.
pub fn version_matches(server: &str) -> (r: bool)
    ensures
        r == (server.spec_bytes() == VERSION.spec_bytes()),
{
    let a = server.as_bytes();
    let b = VERSION.as_bytes();
    if a.len() != b.len() {
        return false;
    }
    let mut i: usize = 0;
    while i < a.len()
        invariant
            0 <= i <= a@.len(),
            a@.len() == b@.len(),
            a@ == server.spec_bytes(),
            b@ == VERSION.spec_bytes(),
            forall|j: int| 0 <= j < i ==> a@[j] == b@[j],
        decreases a@.len() - i,
    {
        if a[i] != b[i] {
            return false;
        }
        i = i + 1;
    }
    assert(a@ =~= b@);
    true
}

/// The move that a click from `from` to `to` stages: a plain move, made a
/// promotion to a queen when a pawn goes to the first or last rank.
pub open spec fn staged(v: BoardView, from: Pos, to: Pos) -> ChessMove {
    if piece_at(v, from) matches Some(p) && p.kind == Kind::Pawn && (to.rank == 0 || to.rank == 7) {
        ChessMove { promotion: Some(Kind::Queen), ..plain_move(from, to) }
    } else {
        plain_move(from, to)
    }
}

/// The move that a click from `from` to `to` stages.
pub fn staged_move(board: &Board, from: Pos, to: Pos) -> (r: ChessMove)
    requires
        in_board(from),
    ensures
        r == staged(board@, from, to),
{
    let mut m = ChessMove::between(from, to);
    match board.at(from) {
        Some(p) => {
            if p.kind == Kind::Pawn && (to.rank == 0 || to.rank == 7) {
                m.promotion = Some(Kind::Queen);
            }
        },
        None => {},
    }
    m
}

/// The direction in which a piece is drawn for a player of colour
/// `viewer`: the board is turned for black, and the opponent's pieces are
/// drawn facing the other way up or down.
pub open spec fn shown_direction(p: Piece, viewer: Color) -> Direction {
    let d = if viewer == Color::Black {
        reverse(p.direction)
    } else {
        p.direction
    };
    if p.color != viewer {
        match d {
            Direction::Up => Direction::Down,
            Direction::Down => Direction::Up,
            _ => d,
        }
    } else {
        d
    }
}

/// The direction in which a piece is drawn for a player of colour `viewer`.
pub fn display_direction(p: &Piece, viewer: Color) -> (r: Direction)
    ensures
        r == shown_direction(*p, viewer),
{
    let mut d = p.direction;
    if viewer == Color::Black {
        d = match d {
            Direction::Up => Direction::Down,
            Direction::Left => Direction::Right,
            Direction::Right => Direction::Left,
            Direction::Down => Direction::Up,
        };
    }
    if p.color != viewer {
        if d == Direction::Up {
            d = Direction::Down;
        } else if d == Direction::Down {
            d = Direction::Up;
        }
    }
    d
}

/// The direction a pawn facing `current` will face when the player turns
/// it to the left or to the right.
pub fn rotation_choice(current: Direction, turn: Direction) -> (r: Direction)
    requires
        turn == Direction::Left || turn == Direction::Right,
    ensures
        turn == Direction::Left ==> r == turn_left(current),
        turn == Direction::Right ==> r == turn_right(current),
{
    match turn {
        Direction::Left => current.left(),
        _ => current.right(),
    }
}

/// What the answer to a request to play in a room means.
#[derive(Debug, Clone, Copy, PartialEq, Eq, Structural)]
pub enum PlayResponse {
    /// 200: the answer is a connection token.
    Token,
    /// 410: the room no longer exists.
    Deleted,
    /// Any other status.
    Failed,
}

/// What the status of the answer to a request to play in a room means.
pub fn play_response(status: u16) -> (r: PlayResponse)
    ensures
        status == 200 ==> r == PlayResponse::Token,
        status == 410 ==> r == PlayResponse::Deleted,
        status != 200 && status != 410 ==> r == PlayResponse::Failed,
{
    if status == 200 {
        PlayResponse::Token
    } else if status == 410 {
        PlayResponse::Deleted
    } else {
        PlayResponse::Failed
    }
}

/// The rooms that the client has joined.
pub struct MyRooms(pub Vec<RoomPlayer>);

impl MyRooms {
    /// Removes the first room with the id `id`, if there is one.
    pub fn remove_room(&mut self, id: i32)
        ensures
            (forall|i: int| 0 <= i < old(self).0@.len() ==> old(self).0@[i].id != id) ==> final(self).0@
                == old(self).0@,
            forall|i: int|
                0 <= i < old(self).0@.len() && old(self).0@[i].id == id && (forall|j: int|
                    0 <= j < i ==> old(self).0@[j].id != id) ==> final(self).0@ == old(self).0@.remove(i),
    {
        let mut i: usize = 0;
        while i < self.0.len()
            invariant
                0 <= i <= self.0@.len(),
                self.0@ == old(self).0@,
                forall|j: int| 0 <= j < i ==> self.0@[j].id != id,
            decreases self.0@.len() - i,
        {
            if self.0[i].id == id {
                let _ = self.0.remove(i);
                return;
            }
            i = i + 1;
        }
    }
}

/// Applies an event that the server sent to the client's board, and tells
/// whether the event starts the game.
pub fn apply_event(board: &mut Board, ev: &ChessEvent) -> (started: bool)
    requires
        well_formed(old(board)@),
        sound_event(old(board)@, *ev),
    ensures
        started == (*ev == ChessEvent::Start),
        applied(old(board)@, *ev, final(board)@),
        well_formed(final(board)@),
{
    match ev {
        ChessEvent::Move(mv) => {
            mv.exec(board);
            false
        },
        ChessEvent::Start => true,
        ChessEvent::GameEnded => false,
    }
}

/// Where the player is in making a move.
#[derive(Debug, Clone, Copy, PartialEq, Eq, Structural)]
pub enum MoveState {
    /// Nothing is picked.
    Idle,
    /// A square is picked: its piece is lifted and its moves are marked.
    Start(Pos),
    /// A pawn move to the last rank waits for the choice of the new piece.
    Promote { from: Pos, to: Pos },
}

/// Whether the squares of a move state lie on the board.
pub open spec fn state_in_board(s: MoveState) -> bool {
    match s {
        MoveState::Idle => true,
        MoveState::Start(p) => in_board(p),
        MoveState::Promote { from, to } => in_board(from) && in_board(to),
    }
}

/// What the client draws on a square while a piece is picked.
#[derive(Debug, Clone, Copy, PartialEq, Eq, Structural)]
pub enum Marker {
    /// The picked piece cannot go there.
    Hidden,
    /// The picked piece can go there.
    Move,
    /// The picked piece can go there and take what stands there.
    Take,
}

/// What the client does after a click on the board, or after the board was
/// reset.
pub enum Staging {
    /// Play the move and send it to the server.
    Play(ChessMove),
    /// Ask, at the square the pawn goes to, which piece it becomes.
    AskPromotion(Pos),
    /// Show the picked square: lift its piece, offer to turn it if it is a
    /// pawn, and mark the squares (by index) that it can go to.
    Show { at: Pos, rotate: bool, markers: Vec<Marker> },
    /// Show nothing picked.
    Clear,
}

/// The moves that the client lets the player make: legal ones that the
/// board can check and play without a panic and that keep it well formed
/// (see `keeps_form` for the one kind of legal move this leaves out).
pub open spec fn offered(v: BoardView, m: ChessMove) -> bool {
    &&& lookahead_safe(v)
    &&& legal(v, m)
    &&& playable(v, m)
    &&& keeps_form(v, m)
}

/// The marker of the square `to` while the piece on `from` is picked.
pub open spec fn marker_of(v: BoardView, from: Pos, to: Pos) -> Marker {
    if offered(v, staged(v, from, to)) {
        if piece_at(v, to) is Some {
            Marker::Take
        } else {
            Marker::Move
        }
    } else {
        Marker::Hidden
    }
}

/// The markers of all squares, by index, while the piece on `from` is
/// picked.
pub open spec fn markers_from(v: BoardView, from: Pos) -> Seq<Marker> {
    Seq::new(64, |i: int| marker_of(v, from, pos_of(i)))
}

/// The move that a click on `picked` completes: one is picked, and the
/// move that the click stages is offered.
pub open spec fn completed(v: BoardView, s: MoveState, picked: Option<Pos>) -> Option<ChessMove> {
    match (s, picked) {
        (MoveState::Start(from), Some(to)) => if offered(v, staged(v, from, to)) {
            Some(staged(v, from, to))
        } else {
            None
        },
        _ => None,
    }
}

/// The move state after a click that completes no move: when the player
/// may move, the clicked square is picked (nothing on a reset); otherwise
/// the state stays.
pub open spec fn repicked(s: MoveState, allowed: bool, picked: Option<Pos>) -> MoveState {
    if allowed {
        match picked {
            Some(p) => MoveState::Start(p),
            None => MoveState::Idle,
        }
    } else {
        s
    }
}

/// Whether the piece on `at` is a pawn.
pub open spec fn pawn_on(v: BoardView, at: Pos) -> bool {
    piece_at(v, at) matches Some(p) && p.kind == Kind::Pawn
}

/// The state of a game in the client.
pub struct ClientState {
    pub room: i32,
    pub color: Color,
    /// Whether it is the player's turn.
    pub move_allowed: bool,
    pub move_state: MoveState,
    pub board: Board,
    pub connected: bool,
}

/// The invariant of a client's game state: a well-formed board, and picked
/// squares on it.
pub open spec fn client_ready(s: &ClientState) -> bool {
    well_formed(s.board@) && state_in_board(s.move_state)
}

/// The texts that the client shows beside the board.
pub struct GameInfo {
    pub your_color: &'static str,
    pub whose_turn: &'static str,
    /// Empty while no one has won.
    pub victory: &'static str,
    pub show_disconnected: bool,
}

/// Whether the client offers the move `m` (see `offered`); `safe` tells
/// whether the board is `lookahead_safe`.
fn offers(board: &Board, m: &ChessMove, safe: bool) -> (r: bool)
    requires
        well_formed(board@),
        safe == lookahead_safe(board@),
    ensures
        r == offered(board@, *m),
{
    if !safe {
        return false;
    }
    if m.check(board).is_err() {
        return false;
    }
    if !board.is_playable(m) {
        return false;
    }
    board.keeps_form_of(m)
}

/// The markers of all squares while the piece on `from` is picked.
fn markers(board: &Board, from: Pos) -> (r: Vec<Marker>)
    requires
        well_formed(board@),
        in_board(from),
    ensures
        r@ == markers_from(board@, from),
{
    let safe = board.can_look_ahead();
    let mut r: Vec<Marker> = Vec::new();
    let mut i: usize = 0;
    while i < 64
        invariant
            0 <= i <= 64,
            well_formed(board@),
            in_board(from),
            safe == lookahead_safe(board@),
            r@ == Seq::new(i as nat, |j: int| marker_of(board@, from, pos_of(j))),
        decreases 64 - i,
    {
        let to = Pos { rank: (i / 8) as i32, file: (i % 8) as i32 };
        assert(to == pos_of(i as int));
        let m = staged_move(board, from, to);
        let mk = if offers(board, &m, safe) {
            if board.at(to).is_some() {
                Marker::Take
            } else {
                Marker::Move
            }
        } else {
            Marker::Hidden
        };
        r.push(mk);
        assert(r@ =~= Seq::new((i + 1) as nat, |j: int| marker_of(board@, from, pos_of(j))));
        i = i + 1;
    }
    r
}

impl ClientState {
    /// The state before any game: room 0, white, nothing picked, not
    /// connected, the starting position.
    pub fn blank() -> (r: ClientState)
        ensures
            r.room == 0,
            r.color == Color::White,
            !r.move_allowed,
            r.move_state == MoveState::Idle,
            r.board@ == initial_view(),
            !r.connected,
            client_ready(&r),
    {
        ClientState {
            room: 0,
            color: Color::White,
            move_allowed: false,
            move_state: MoveState::Idle,
            board: Board::new(),
            connected: false,
        }
    }

    /// The state of a game that starts in `room`, for the player of colour
    /// `color`, on the board that the server sent.
    pub fn new(room: i32, color: Color, board: Board) -> (r: ClientState)
        requires
            well_formed(board@),
        ensures
            r.room == room,
            r.color == color,
            r.move_allowed == (board@.turn == color),
            r.move_state == MoveState::Idle,
            r.board@ == board@,
            !r.connected,
            client_ready(&r),
    {
        let allowed = board.turn() == color;
        ClientState { room, color, move_allowed: allowed, move_state: MoveState::Idle, board, connected: false }
    }

    /// The texts shown beside the board: the player's colour, whose turn it
    /// is, who won, and whether the connection is lost.
    pub fn info(&self) -> (r: GameInfo)
        ensures
            r.your_color@ == (if self.color == Color::White {
                "You play as white"@
            } else {
                "You play as black"@
            }),
            r.whose_turn@ == (if self.color == self.board@.turn {
                "It's your turn"@
            } else {
                "It's your opponent's turn"@
            }),
            r.victory@ == (match self.board@.victory {
                Some(Color::White) => "White won!"@,
                Some(Color::Black) => "Black won!"@,
                None => ""@,
            }),
            r.show_disconnected == !self.connected,
    {
        let your_color = match self.color {
            Color::White => "You play as white",
            Color::Black => "You play as black",
        };
        let whose_turn = if self.color == self.board.turn() {
            "It's your turn"
        } else {
            "It's your opponent's turn"
        };
        let victory = match self.board.victory() {
            Some(Color::White) => "White won!",
            Some(Color::Black) => "Black won!",
            None => "",
        };
        GameInfo { your_color, whose_turn, victory, show_disconnected: !self.connected }
    }

    /// Takes the board that the server now holds; the player may move when
    /// it is their turn on it.
    pub fn sync(&mut self, board: &Board)
        requires
            well_formed(board@),
            state_in_board(old(self).move_state),
        ensures
            final(self).board@ == board@,
            final(self).move_allowed == (board@.turn == old(self).color),
            final(self).move_state == old(self).move_state,
            final(self).room == old(self).room,
            final(self).color == old(self).color,
            final(self).connected == old(self).connected,
            client_ready(final(self)),
    {
        self.board = board.clone();
        self.move_allowed = self.board.turn() == self.color;
    }

    /// Handles a click on the square `picked` (`None` resets the
    /// selection): completes the picked move when the click makes it an
    /// offered one (asking for the new piece first when a pawn reaches the
    /// last rank), and otherwise picks the clicked square, if the player may
    /// move, and shows what the picked piece can do.
    pub fn stage(&mut self, picked: Option<Pos>) -> (r: Staging)
        requires
            client_ready(old(self)),
            picked matches Some(p) ==> in_board(p),
        ensures
            final(self).board@ == old(self).board@,
            final(self).move_allowed == old(self).move_allowed,
            final(self).room == old(self).room,
            final(self).color == old(self).color,
            final(self).connected == old(self).connected,
            client_ready(final(self)),
            match completed(old(self).board@, old(self).move_state, picked) {
                Some(m) => if m.promotion is Some {
                    &&& final(self).move_state == (MoveState::Promote { from: m.from, to: m.to })
                    &&& r matches Staging::AskPromotion(at) && at == m.to
                } else {
                    &&& final(self).move_state == old(self).move_state
                    &&& r matches Staging::Play(played) && played == m
                },
                None => {
                    &&& final(self).move_state == repicked(
                        old(self).move_state,
                        old(self).move_allowed,
                        picked,
                    )
                    &&& match final(self).move_state {
                        MoveState::Start(at) => r matches Staging::Show { at: shown, rotate, markers } && shown
                            == at && rotate == pawn_on(old(self).board@, at) && markers@ == markers_from(
                            old(self).board@,
                            at,
                        ),
                        _ => r is Clear,
                    }
                },
            },
    {
        match (self.move_state, picked) {
            (MoveState::Start(from), Some(to)) => {
                let m = staged_move(&self.board, from, to);
                let safe = self.board.can_look_ahead();
                if offers(&self.board, &m, safe) {
                    if m.promotion.is_some() {
                        self.move_state = MoveState::Promote { from, to };
                        return Staging::AskPromotion(to);
                    } else {
                        return Staging::Play(m);
                    }
                }
            },
            _ => {},
        }
        if self.move_allowed {
            self.move_state = match picked {
                Some(p) => MoveState::Start(p),
                None => MoveState::Idle,
            };
        }
        match self.move_state {
            MoveState::Start(at) => {
                let rotate = match self.board.at(at) {
                    Some(p) => p.kind == Kind::Pawn,
                    None => false,
                };
                let markers = markers(&self.board, at);
                Staging::Show { at, rotate, markers }
            },
            _ => Staging::Clear,
        }
    }

    /// The promotion to `kind` of the pawn move that waits for it, if one
    /// does.
    pub fn promotion(&self, kind: Kind) -> (r: Option<ChessMove>)
        ensures
            match self.move_state {
                MoveState::Promote { from, to } => r == Some(
                    ChessMove { promotion: Some(kind), ..plain_move(from, to) },
                ),
                _ => r is None,
            },
    {
        match self.move_state {
            MoveState::Promote { from, to } => Some(ChessMove::between(from, to).promote(kind)),
            _ => None,
        }
    }

    /// The move that turns the picked pawn to the left or to the right, if
    /// a square is picked.
    pub fn rotation(&self, turn: Direction) -> (r: Option<ChessMove>)
        requires
            turn == Direction::Left || turn == Direction::Right,
            state_in_board(self.move_state),
            self.move_state matches MoveState::Start(at) ==> piece_at(self.board@, at) is Some,
        ensures
            match self.move_state {
                MoveState::Start(at) => r == Some(
                    rotation_move(
                        at,
                        if turn == Direction::Left {
                            turn_left(piece_at(self.board@, at).unwrap().direction)
                        } else {
                            turn_right(piece_at(self.board@, at).unwrap().direction)
                        },
                    ),
                ),
                _ => r is None,
            },
    {
        match self.move_state {
            MoveState::Start(at) => {
                match self.board.at(at) {
                    Some(p) => Some(ChessMove::rotate_at(at, rotation_choice(p.direction, turn))),
                    None => None,
                }
            },
            _ => None,
        }
    }

    /// Plays a move on the client's board: nothing is picked any more, and
    /// the player may move when it is their turn after the move.
    pub fn make_move(&mut self, m: &ChessMove)
        requires
            client_ready(old(self)),
            playable(old(self).board@, *m),
            keeps_form(old(self).board@, *m),
        ensures
            m.use_ladder ==> exists|k: (usize, u64)|
                !ladders_before_start(old(self).board@, *m).contains_key(k) && final(self).board@
                    == play(old(self).board@, *m, k),
            !m.use_ladder ==> final(self).board@ == after(old(self).board@, *m),
            final(self).move_state == MoveState::Idle,
            final(self).move_allowed == (final(self).board@.turn == old(self).color),
            final(self).room == old(self).room,
            final(self).color == old(self).color,
            final(self).connected == old(self).connected,
            client_ready(final(self)),
    {
        m.exec(&mut self.board);
        self.move_state = MoveState::Idle;
        self.move_allowed = self.board.turn() == self.color;
    }
}

} // verus!
