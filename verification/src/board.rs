//! The board: its squares, its ladders, whose turn it is, who won, and the
//! rules it plays by.

use vstd::prelude::*;
use vstd::string::StringSliceAdditionalSpecFns;
use generational_arena::Arena;
use crate::arena::{
    ladder_slots, ladders_clone, ladders_get, ladders_insert, ladders_new, ladders_remove, ladders_set,
    ladders_values,
};
use crate::chess_move::ChessMove;
use crate::piece::{piece_letter, Color, Direction, Kind, Ladder, LadderId, LadderState, Piece, Pos};
use crate::rules::{
    after, cells_after_landing, en_passant_victim, keeps_form, kings, ladders_after_capture, landed,
    ladders_before_start, makes_knook, moved_piece, pawn_takeable, play, playable, sq, start_ladder,
    tick, ticks,
};

verus! {

/// Rule switches of a board.
#[derive(Debug, Clone, Copy, PartialEq, Eq, Structural)]
pub struct Rules {
    /// Moves are still generated once a side has won.
    pub move_after_win: bool,
    /// Only the side whose turn it is may move.
    pub move_order: bool,
}

impl Default for Rules {
    fn default() -> (r: Rules)
        ensures
            r == (Rules { move_after_win: false, move_order: true }),
    {
        Rules { move_after_win: false, move_order: true }
    }
}

/// A game position.
pub struct Board {
    pub rules: Rules,
    state: [Option<Piece>; 64],
    pub turn: Color,
    pub victory: Option<Color>,
    en_passant: Option<Pos>,
    ladders: Arena<Ladder>,
}

/// What a board holds, as mathematical values.
pub struct BoardView {
    pub rules: Rules,
    /// The 64 squares, rank by rank from rank 0, file 0.
    pub cells: Seq<Option<Piece>>,
    pub turn: Color,
    pub victory: Option<Color>,
    /// The square that a pawn just skipped over, if any.
    pub en_passant: Option<Pos>,
    /// The ladders, by the raw parts of their arena index.
    pub ladders: Map<(usize, u64), Ladder>,
}

impl View for Board {
    type V = BoardView;

    closed spec fn view(&self) -> BoardView {
        BoardView {
            rules: self.rules,
            cells: self.state@,
            turn: self.turn,
            victory: self.victory,
            en_passant: self.en_passant,
            ladders: ladder_slots(self.ladders),
        }
    }
}

impl Clone for Board {
    fn clone(&self) -> (r: Board)
        ensures
            r@ == self@,
    {
        Board {
            rules: self.rules,
            state: self.state,
            turn: self.turn,
            victory: self.victory,
            en_passant: self.en_passant,
            ladders: ladders_clone(&self.ladders),
        }
    }
}

/// Whether a square (given by rank and file) lies on the board.
pub open spec fn on_board(rank: int, file: int) -> bool {
    0 <= rank < 8 && 0 <= file < 8
}

/// Whether a position lies on the board.
pub open spec fn in_board(p: Pos) -> bool {
    on_board(p.rank as int, p.file as int)
}

/// The index of a square in `BoardView::cells`.
pub open spec fn square(rank: int, file: int) -> int {
    rank * 8 + file
}

/// The position of the square with index `i`.
pub open spec fn pos_of(i: int) -> Pos {
    Pos { rank: (i / 8) as i32, file: (i % 8) as i32 }
}

/// The contents of a square of the board.
pub open spec fn piece_at(v: BoardView, p: Pos) -> Option<Piece> {
    v.cells[square(p.rank as int, p.file as int)]
}

/// What a square holds, seen from the move rules.
#[derive(Debug, Clone, Copy, PartialEq, Eq, Structural)]
pub enum Tile {
    Occupied(Piece),
    EnPassant,
    Empty,
    Void,
}

impl Tile {
    /// Whether the tile is empty or the en passant square, or holds a piece
    /// on which `f` holds; off the board it is not.
    pub fn is_empty_or<F: FnOnce(Piece) -> bool>(self, f: F) -> (r: bool)
        requires
            self matches Tile::Occupied(p) ==> f.requires((p,)),
        ensures
            match self {
                Tile::Occupied(p) => f.ensures((p,), r),
                Tile::Empty => r,
                Tile::EnPassant => r,
                Tile::Void => !r,
            },
    {
        match self {
            Tile::Occupied(v) => f(v),
            Tile::Empty => true,
            Tile::Void => false,
            Tile::EnPassant => true,
        }
    }

    /// Whether the tile is an empty square (the en passant square is not).
    pub fn is_empty(self) -> (r: bool)
        ensures
            r == (self == Tile::Empty),
    {
        match self {
            Tile::Empty => true,
            _ => false,
        }
    }

    /// Whether a pawn of colour `color` can take onto the tile: an enemy
    /// piece or the en passant square.
    pub fn is_pawn_takeable(self, color: Color) -> (r: bool)
        ensures
            r == pawn_takeable(self, color),
    {
        match self {
            Tile::Occupied(v) => v.color != color,
            Tile::EnPassant => true,
            _ => false,
        }
    }
}

/// The tile at the square (rank, file): the en passant square first, then
/// the board's contents, and `Void` off the board.
pub open spec fn tile(v: BoardView, rank: int, file: int) -> Tile {
    if v.en_passant matches Some(e) && e.rank == rank && e.file == file {
        Tile::EnPassant
    } else if on_board(rank, file) {
        match v.cells[square(rank, file)] {
            Some(p) => Tile::Occupied(p),
            None => Tile::Empty,
        }
    } else {
        Tile::Void
    }
}

/// A piece that is building the ladder `id`.
pub open spec fn builds(p: Option<Piece>, id: LadderId) -> bool {
    p matches Some(x) && x.ladder == LadderState::Building(id)
}

/// The invariant of a board: 64 squares, an en passant square on the board,
/// and every ladder under construction held by the arena and built by one
/// piece only.
pub open spec fn well_formed(v: BoardView) -> bool {
    &&& v.cells.len() == 64
    &&& (v.en_passant matches Some(e) ==> in_board(e))
    &&& forall|i: int, id: LadderId|
        0 <= i < 64 && #[trigger] builds(v.cells[i], id) ==> v.ladders.contains_key(id.key())
    &&& forall|i: int, j: int, id: LadderId|
        0 <= i < 64 && 0 <= j < 64 && #[trigger] builds(v.cells[i], id) && #[trigger] builds(
            v.cells[j],
            id,
        ) ==> i == j
}

impl Board {
    /// Whose turn it is.
    pub fn turn(&self) -> (r: Color)
        ensures
            r == self@.turn,
    {
        self.turn
    }

    /// Who has won, if anyone.
    pub fn victory(&self) -> (r: Option<Color>)
        ensures
            r == self@.victory,
    {
        self.victory
    }

    /// The rules the board plays by.
    pub fn rules(&self) -> (r: Rules)
        ensures
            r == self@.rules,
    {
        self.rules
    }

    /// The square that a pawn just skipped over, if any.
    pub fn en_passant(&self) -> (r: Option<Pos>)
        ensures
            r == self@.en_passant,
    {
        self.en_passant
    }

    /// Whether the move can be played on the board without a panic (see
    /// `playable`).
    pub fn is_playable(&self, mv: &ChessMove) -> (r: bool)
        ensures
            r == playable(self@, *mv),
    {
        let from = mv.from;
        let to = mv.to;
        if !(0 <= from.rank && from.rank < 8 && 0 <= from.file && from.file < 8) {
            return false;
        }
        if !(0 <= to.rank && to.rank < 8 && 0 <= to.file && to.file < 8) {
            return false;
        }
        let p = match self.state[(from.rank * 8 + from.file) as usize] {
            Some(p) => p,
            None => {
                return false;
            },
        };
        let building = match p.ladder {
            LadderState::Building(_) => true,
            _ => false,
        };
        let knook_promotion = match mv.promotion {
            Some(k) => p.kind == Kind::Rook && k == Kind::Knight,
            None => false,
        };
        if from == to && building && p.color == self.turn && !knook_promotion {
            return false;
        }
        let k = match mv.promotion {
            Some(k) => k,
            None => p.kind,
        };
        let lands_on_en_passant = match self.en_passant {
            Some(e) => e == to,
            None => false,
        };
        if k == Kind::Pawn && lands_on_en_passant {
            match p.color {
                Color::White => to.rank >= 1,
                Color::Black => to.rank <= 6,
            }
        } else {
            true
        }
    }

    /// Whether the board stays well formed after the move (see
    /// `keeps_form`).
    pub fn keeps_form_of(&self, mv: &ChessMove) -> (r: bool)
        requires
            in_board(mv.from),
        ensures
            r == keeps_form(self@, *mv),
    {
        match self.state[(mv.from.rank * 8 + mv.from.file) as usize] {
            Some(p) => {
                let building = match p.ladder {
                    LadderState::Building(_) => true,
                    _ => false,
                };
                let knook_promotion = match mv.promotion {
                    Some(k) => p.kind == Kind::Rook && p.color == self.turn && k == Kind::Knight,
                    None => false,
                };
                !(mv.from == mv.to && building && !knook_promotion)
            },
            None => false,
        }
    }

    /// Whether the board is well formed (see `well_formed`).
    pub fn is_well_formed(&self) -> (r: bool)
        ensures
            r == well_formed(self@),
    {
        match self.en_passant {
            Some(e) => {
                if !(0 <= e.rank && e.rank < 8 && 0 <= e.file && e.file < 8) {
                    return false;
                }
            },
            None => {},
        }
        let mut i: usize = 0;
        while i < 64
            invariant
                0 <= i <= 64,
                self@.cells.len() == 64,
                self@.en_passant matches Some(e) ==> in_board(e),
                forall|a: int, id: LadderId|
                    0 <= a < i && #[trigger] builds(self@.cells[a], id) ==> self@.ladders.contains_key(id.key()),
                forall|a: int, b: int, id: LadderId|
                    0 <= a < i && 0 <= b < 64 && #[trigger] builds(self@.cells[a], id) && #[trigger] builds(self@.cells[b], id) ==> a == b,
            decreases 64 - i,
        {
            match self.state[i] {
                Some(p) => {
                    match p.ladder {
                        LadderState::Building(id) => {
                            assert(builds(self@.cells[i as int], id));
                            if ladders_get(&self.ladders, id).is_none() {
                                return false;
                            }
                            let mut j: usize = 0;
                            while j < 64
                                invariant
                                    0 <= j <= 64,
                                    i < 64,
                                    self@.cells.len() == 64,
                                    builds(self@.cells[i as int], id),
                                    forall|b: int| 0 <= b < j && b != i ==> !builds(self@.cells[b], id),
                                decreases 64 - j,
                            {
                                if j != i {
                                    match self.state[j] {
                                        Some(q) => {
                                            if q.ladder == LadderState::Building(id) {
                                                assert(builds(self@.cells[j as int], id));
                                                return false;
                                            }
                                        },
                                        None => {},
                                    }
                                }
                                j = j + 1;
                            }
                            assert forall|b: int, id2: LadderId|
                                0 <= b < 64 && builds(self@.cells[i as int], id2) && builds(self@.cells[b], id2) implies b == i by {
                                assert(id2 == id);
                            }
                        },
                        _ => {},
                    }
                },
                None => {},
            }
            proof {
                assert forall|a: int, b: int, id2: LadderId|
                    0 <= a < i + 1 && 0 <= b < 64 && #[trigger] builds(self@.cells[a], id2) && #[trigger] builds(self@.cells[b], id2) implies a == b by {
                    if a < i && b == i as int {
                        assert(builds(self@.cells[b], id2));
                    }
                }
            }
            i = i + 1;
        }
        true
    }

    /// Sets whose turn it is.
    pub fn set_turn(&mut self, c: Color)
        ensures
            final(self)@ == (BoardView { turn: c, ..old(self)@ }),
    {
        self.turn = c;
    }

    /// Sets the rules the board plays by.
    pub fn set_rules(&mut self, rules: Rules)
        ensures
            final(self)@ == (BoardView { rules, ..old(self)@ }),
    {
        self.rules = rules;
    }

    /// A board with no pieces, white to move.
    pub fn empty() -> (r: Board)
        ensures
            r@.cells == Seq::new(64, |i: int| None::<Piece>),
            r@.rules == (Rules { move_after_win: false, move_order: true }),
            r@.turn == Color::White,
            r@.victory is None,
            r@.en_passant is None,
            r@.ladders.is_empty(),
            well_formed(r@),
    {
        let r = Board {
            rules: Rules::default(),
            state: [None; 64],
            turn: Color::White,
            victory: None,
            en_passant: None,
            ladders: ladders_new(),
        };
        assert(r@.cells =~= Seq::new(64, |i: int| None::<Piece>));
        r
    }

    /// The tile at a position.
    pub fn get(&self, pos: Pos) -> (r: Tile)
        ensures
            r == tile(self@, pos.rank as int, pos.file as int),
    {
        if self.en_passant == Some(pos) {
            Tile::EnPassant
        } else if 0 <= pos.rank && pos.rank < 8 && 0 <= pos.file && pos.file < 8 {
            match self.state[(pos.rank * 8 + pos.file) as usize] {
                Some(p) => Tile::Occupied(p),
                None => Tile::Empty,
            }
        } else {
            Tile::Void
        }
    }

    /// The contents of a square on the board.
    pub fn at(&self, pos: Pos) -> (r: Option<Piece>)
        requires
            in_board(pos),
        ensures
            r == piece_at(self@, pos),
    {
        self.state[(pos.rank * 8 + pos.file) as usize]
    }

    /// Every ladder that the board holds.
    pub fn ladder_list(&self) -> (r: Vec<Ladder>)
        ensures
            forall|l: Ladder| #[trigger] r@.contains(l) <==> self@.ladders.values().contains(l),
    {
        ladders_values(&self.ladders)
    }
}

/// Every ladder under construction by a piece of colour `turn` on squares
/// `from..64` is held.
pub open spec fn held_from(
    cells: Seq<Option<Piece>>,
    lad: Map<(usize, u64), Ladder>,
    turn: Color,
    from: int,
) -> bool {
    forall|j: int, id: LadderId|
        from <= j < 64 && #[trigger] builds(cells[j], id) && cells[j]->0.color == turn
            ==> lad.contains_key(id.key())
}

/// No two squares build the same ladder.
pub open spec fn builders_distinct(cells: Seq<Option<Piece>>) -> bool {
    forall|i: int, j: int, id: LadderId|
        0 <= i < 64 && 0 <= j < 64 && #[trigger] builds(cells[i], id) && #[trigger] builds(
            cells[j],
            id,
        ) ==> i == j
}

proof fn lemma_landing(v: BoardView, mv: ChessMove)
    requires
        well_formed(v),
        playable(v, mv),
    ensures
        builders_distinct(cells_after_landing(v, mv)),
        held_from(cells_after_landing(v, mv), landed(v, mv).1, v.turn, 0),
        cells_after_landing(v, mv).len() == 64,
{
    let c1 = cells_after_landing(v, mv);
    let lad1 = landed(v, mv).1;
    let fi = sq(mv.from);
    let ti = sq(mv.to);
    assert forall|i: int, j: int, id: LadderId|
        0 <= i < 64 && 0 <= j < 64 && #[trigger] builds(c1[i], id) && #[trigger] builds(c1[j], id)
        implies i == j by {
        let oi = if i == ti { fi } else { i };
        let oj = if j == ti { fi } else { j };
        assert(builds(v.cells[oi], id));
        assert(builds(v.cells[oj], id));
    }
    assert forall|j: int, id: LadderId|
        0 <= j < 64 && #[trigger] builds(c1[j], id) && c1[j]->0.color == v.turn
        implies lad1.contains_key(id.key()) by {
        let oj = if j == ti { fi } else { j };
        assert(builds(v.cells[oj], id));
        assert(v.ladders.contains_key(id.key()));
        let lad0 = ladders_after_capture(v, mv);
        if let Some(x) = v.cells[ti] {
            if let LadderState::Building(vid) = x.ladder {
                assert(builds(v.cells[ti], vid));
                if vid == id {
                    assert(oj == ti);
                    assert(false);
                }
            }
        }
        assert(lad0.contains_key(id.key()));
        let p = moved_piece(v.cells[fi]->0, mv);
        if makes_knook(v, mv) {
            if let LadderState::Building(pid) = p.ladder {
                assert(builds(v.cells[fi], pid));
                if pid == id {
                    assert(j != ti);
                    assert(oj == fi);
                    assert(false);
                }
            }
        }
    }
}

/// Every ladder under construction is held.
pub open spec fn all_held(cells: Seq<Option<Piece>>, lad: Map<(usize, u64), Ladder>) -> bool {
    forall|j: int, id: LadderId|
        0 <= j < 64 && #[trigger] builds(cells[j], id) ==> lad.contains_key(id.key())
}

proof fn lemma_landing_form(v: BoardView, mv: ChessMove)
    requires
        well_formed(v),
        playable(v, mv),
        keeps_form(v, mv),
    ensures
        all_held(cells_after_landing(v, mv), landed(v, mv).1),
{
    let c1 = cells_after_landing(v, mv);
    let lad1 = landed(v, mv).1;
    let fi = sq(mv.from);
    let ti = sq(mv.to);
    assert forall|j: int, id: LadderId| 0 <= j < 64 && #[trigger] builds(c1[j], id)
        implies lad1.contains_key(id.key()) by {
        let oj = if j == ti { fi } else { j };
        assert(builds(v.cells[oj], id));
        assert(v.ladders.contains_key(id.key()));
        let lad0 = ladders_after_capture(v, mv);
        if let Some(x) = v.cells[ti] {
            if let LadderState::Building(vid) = x.ladder {
                assert(builds(v.cells[ti], vid));
                if vid == id {
                    assert(oj == ti);
                    assert(false);
                }
            }
        }
        assert(lad0.contains_key(id.key()));
        let p = moved_piece(v.cells[fi]->0, mv);
        if makes_knook(v, mv) {
            if let LadderState::Building(pid) = p.ladder {
                assert(builds(v.cells[fi], pid));
                if pid == id {
                    assert(j != ti);
                    assert(oj == fi);
                    assert(false);
                }
            }
        }
    }
}

proof fn lemma_tick_form(cells: Seq<Option<Piece>>, lad: Map<(usize, u64), Ladder>, turn: Color, i: int)
    requires
        cells.len() == 64,
        0 <= i < 64,
        builders_distinct(cells),
        all_held(cells, lad),
    ensures
        tick(cells, lad, turn, i).0.len() == 64,
        builders_distinct(tick(cells, lad, turn, i).0),
        all_held(tick(cells, lad, turn, i).0, tick(cells, lad, turn, i).1),
{
    let (c2, l2) = tick(cells, lad, turn, i);
    assert forall|a: int, b: int, id: LadderId|
        0 <= a < 64 && 0 <= b < 64 && #[trigger] builds(c2[a], id) && #[trigger] builds(c2[b], id)
        implies a == b by {
        assert(builds(cells[a], id));
        assert(builds(cells[b], id));
    }
    assert forall|j: int, id: LadderId| 0 <= j < 64 && #[trigger] builds(c2[j], id)
        implies l2.contains_key(id.key()) by {
        assert(builds(cells[j], id));
        if let Some(x) = cells[i] {
            if let LadderState::Building(l) = x.ladder {
                assert(builds(cells[i], l));
            }
        }
    }
}

proof fn lemma_ticks_form(
    cells: Seq<Option<Piece>>,
    lad: Map<(usize, u64), Ladder>,
    turn: Color,
    n: nat,
)
    requires
        cells.len() == 64,
        n <= 64,
        builders_distinct(cells),
        all_held(cells, lad),
    ensures
        ticks(cells, lad, turn, n).0.len() == 64,
        builders_distinct(ticks(cells, lad, turn, n).0),
        all_held(ticks(cells, lad, turn, n).0, ticks(cells, lad, turn, n).1),
    decreases n,
{
    if n > 0 {
        lemma_ticks_form(cells, lad, turn, (n - 1) as nat);
        let (c, l) = ticks(cells, lad, turn, (n - 1) as nat);
        lemma_tick_form(c, l, turn, n - 1);
    }
}

proof fn lemma_ticks_shape(
    cells: Seq<Option<Piece>>,
    lad: Map<(usize, u64), Ladder>,
    turn: Color,
    n: nat,
)
    requires
        cells.len() == 64,
        n <= 64,
    ensures
        ticks(cells, lad, turn, n).0.len() == 64,
        forall|j: int|
            0 <= j < 64 && cells[j] is Some ==> (#[trigger] ticks(cells, lad, turn, n).0[j]) is Some
                && ticks(cells, lad, turn, n).0[j]->0.kind == cells[j]->0.kind && ticks(
                cells,
                lad,
                turn,
                n,
            ).0[j]->0.color == cells[j]->0.color,
    decreases n,
{
    if n > 0 {
        lemma_ticks_shape(cells, lad, turn, (n - 1) as nat);
    }
}

/// A move that keeps the board's form leaves a well-formed board.
proof fn lemma_play_form(v: BoardView, mv: ChessMove, k: (usize, u64))
    requires
        well_formed(v),
        playable(v, mv),
        keeps_form(v, mv),
        mv.use_ladder ==> !ladders_before_start(v, mv).contains_key(k),
    ensures
        well_formed(play(v, mv, k)),
{
    lemma_landing(v, mv);
    lemma_landing_form(v, mv);
    let c1 = cells_after_landing(v, mv);
    let l1 = landed(v, mv).1;
    lemma_ticks_form(c1, l1, v.turn, 64);
    let (c2, l2) = ticks(c1, l1, v.turn, 64);
    let (c3, l3) = start_ladder(c2, l2, mv, k);
    let id = LadderId { index: k.0, generation: k.1 };
    assert(builders_distinct(c3)) by {
        assert forall|a: int, b: int, i2: LadderId|
            0 <= a < 64 && 0 <= b < 64 && #[trigger] builds(c3[a], i2) && #[trigger] builds(c3[b], i2)
            implies a == b by {
            if mv.use_ladder {
                if a != sq(mv.to) {
                    assert(builds(c2[a], i2));
                }
                if b != sq(mv.to) {
                    assert(builds(c2[b], i2));
                }
            } else {
                assert(builds(c2[a], i2));
                assert(builds(c2[b], i2));
            }
        }
    }
    assert(all_held(c3, l3)) by {
        assert forall|j: int, i2: LadderId| 0 <= j < 64 && #[trigger] builds(c3[j], i2)
            implies l3.contains_key(i2.key()) by {
            if !(mv.use_ladder && j == sq(mv.to)) {
                assert(builds(c2[j], i2));
            }
        }
    }
    lemma_ticks_shape(c1, l1, v.turn, 64);
    assert(c1[sq(mv.to)] is Some);
    assert(c2[sq(mv.to)] is Some);
    assert(c3.len() == 64);
    let w = play(v, mv, k);
    let piece = c3[sq(mv.to)]->0;
    if piece.kind == Kind::Pawn && v.en_passant == Some(mv.to) {
        let (r, f) = en_passant_victim(piece.color, mv.to);
        assert(on_board(r, f));
        assert(w.cells == c3.update(square(r, f), None));
    } else {
        assert(w.cells == c3);
    }
    assert(w.cells.len() == 64);
    assert forall|j: int, i2: LadderId| 0 <= j < 64 && #[trigger] builds(w.cells[j], i2)
        implies w.ladders.contains_key(i2.key()) by {
        assert(builds(c3[j], i2));
    }
    assert forall|a: int, b: int, i2: LadderId|
        0 <= a < 64 && 0 <= b < 64 && #[trigger] builds(w.cells[a], i2) && #[trigger] builds(
            w.cells[b],
            i2,
        ) implies a == b by {
        assert(builds(c3[a], i2));
        assert(builds(c3[b], i2));
    }
}

impl Board {
    /// The moving piece lands on its target square.
    fn land(&mut self, mv: ChessMove)
        requires
            well_formed(old(self)@),
            playable(old(self)@, mv),
        ensures
            final(self)@ == (BoardView {
                cells: cells_after_landing(old(self)@, mv),
                ladders: landed(old(self)@, mv).1,
                ..old(self)@
            }),
            builders_distinct(final(self)@.cells),
            held_from(final(self)@.cells, final(self)@.ladders, final(self)@.turn, 0),
    {
        let ghost v = self@;
        let from = mv.from;
        let to = mv.to;
        let ti = (to.rank * 8 + to.file) as usize;
        let fi = (from.rank * 8 + from.file) as usize;
        let mut was_friendly_rook = false;
        match self.state[ti] {
            Some(piece) => {
                match piece.ladder {
                    LadderState::Building(l) => {
                        let _ = ladders_remove(&mut self.ladders, l);
                    },
                    _ => {},
                }
                was_friendly_rook = piece.kind == Kind::Rook && piece.color == self.turn;
            },
            None => {},
        }
        assert(ladder_slots(self.ladders) == ladders_after_capture(v, mv));
        let mover = self.state[fi].unwrap();
        let mut p = mover;
        if from != to {
            p.moved = true;
        }
        match mv.promotion {
            Some(k) => {
                p.kind = k;
            },
            None => {},
        }
        match mv.direction {
            Some(d) => {
                p.direction = d;
            },
            None => {},
        }
        assert(p == moved_piece(mover, mv));
        if was_friendly_rook && p.kind == Kind::Knight {
            match p.ladder {
                LadderState::Building(l) => {
                    let _ = ladders_remove(&mut self.ladders, l);
                },
                _ => {},
            }
            p = Piece {
                kind: Kind::Knook,
                color: p.color,
                direction: p.direction,
                moved: true,
                ladder: LadderState::Unused,
                ladder_countdown: 0,
            };
        }
        self.state[fi] = None;
        self.state[ti] = Some(p);
        assert(self.state@ =~= cells_after_landing(v, mv));
        assert(ladder_slots(self.ladders) == landed(v, mv).1);
        proof {
            lemma_landing(v, mv);
        }
    }

    /// The ladder counters of the side to move tick on every square, in
    /// order.
    fn tick_ladders(&mut self)
        requires
            old(self)@.cells.len() == 64,
            builders_distinct(old(self)@.cells),
            held_from(old(self)@.cells, old(self)@.ladders, old(self)@.turn, 0),
        ensures
            (final(self)@.cells, final(self)@.ladders) == ticks(
                old(self)@.cells,
                old(self)@.ladders,
                old(self)@.turn,
                64,
            ),
            final(self)@ == (BoardView {
                cells: final(self)@.cells,
                ladders: final(self)@.ladders,
                ..old(self)@
            }),
            final(self)@.cells.len() == 64,
            builders_distinct(final(self)@.cells),
            forall|j: int|
                0 <= j < 64 && old(self)@.cells[j] is Some ==> final(self)@.cells[j] is Some
                    && final(self)@.cells[j]->0.kind == old(self)@.cells[j]->0.kind
                    && final(self)@.cells[j]->0.color == old(self)@.cells[j]->0.color,
    {
        let ghost cells1 = self.state@;
        let ghost lad1 = ladder_slots(self.ladders);
        let ghost v = self@;
        let turn = self.turn;
        let mut i: usize = 0;
        while i < 64
            invariant
                0 <= i <= 64,
                self.state@.len() == 64,
                cells1.len() == 64,
                (self.state@, ladder_slots(self.ladders)) == ticks(cells1, lad1, turn, i as nat),
                turn == v.turn,
                self.turn == v.turn,
                self.rules == v.rules,
                self.victory == v.victory,
                self.en_passant == v.en_passant,
                held_from(self.state@, ladder_slots(self.ladders), turn, i as int),
                builders_distinct(self.state@),
                forall|j: int| i <= j < 64 ==> self.state@[j] == cells1[j],
                forall|j: int|
                    0 <= j < 64 && cells1[j] is Some ==> self.state@[j] is Some
                        && self.state@[j]->0.kind == cells1[j]->0.kind && self.state@[j]->0.color
                        == cells1[j]->0.color,
            decreases 64 - i,
        {
            let ghost c0 = self.state@;
            let ghost l0 = ladder_slots(self.ladders);
            match self.state[i] {
                Some(piece0) => {
                    if piece0.color == turn {
                        let mut piece = piece0;
                        match piece.ladder {
                            LadderState::Building(l) => {
                                assert(builds(c0[i as int], l));
                                let lad = ladders_get(&self.ladders, l).unwrap();
                                let newl = Ladder {
                                    end: Pos { rank: (i / 8) as i32, file: (i % 8) as i32 },
                                    ..lad
                                };
                                if piece.ladder_countdown == 1 {
                                    if newl.start == newl.end {
                                        let _ = ladders_remove(&mut self.ladders, l);
                                    } else {
                                        ladders_set(&mut self.ladders, l, Ladder { built: true, ..newl });
                                    }
                                    piece.ladder = LadderState::Spent;
                                } else {
                                    ladders_set(&mut self.ladders, l, newl);
                                }
                            },
                            _ => {},
                        }
                        if piece.ladder_countdown > 0 {
                            piece.ladder_countdown = piece.ladder_countdown - 1;
                        }
                        self.state[i] = Some(piece);
                    }
                },
                None => {},
            }
            proof {
                assert(self.state@ =~= tick(c0, l0, turn, i as int).0);
                assert(ladder_slots(self.ladders) =~= tick(c0, l0, turn, i as int).1);
                assert forall|j: int, id: LadderId|
                    i + 1 <= j < 64 && #[trigger] builds(self.state@[j], id) && self.state@[j]->0.color
                        == turn implies ladder_slots(self.ladders).contains_key(id.key()) by {
                    assert(builds(c0[j], id));
                    if let Some(x) = c0[i as int] {
                        if let LadderState::Building(l) = x.ladder {
                            assert(builds(c0[i as int], l));
                        }
                    }
                }
                assert forall|a: int, b: int, id: LadderId|
                    0 <= a < 64 && 0 <= b < 64 && #[trigger] builds(self.state@[a], id) && #[trigger] builds(
                        self.state@[b],
                        id,
                    ) implies a == b by {
                    assert(builds(c0[a], id));
                    assert(builds(c0[b], id));
                }
            }
            i = i + 1;
        }
    }

    /// The number of kings of each colour on the board.
    fn count_kings(&self) -> (r: (usize, usize))
        ensures
            r.0 == kings(self@.cells, Color::White, 64),
            r.1 == kings(self@.cells, Color::Black, 64),
    {
        let mut white_count: usize = 0;
        let mut black_count: usize = 0;
        let mut j: usize = 0;
        while j < 64
            invariant
                0 <= j <= 64,
                self@.cells.len() == 64,
                white_count == kings(self@.cells, Color::White, j as nat),
                black_count == kings(self@.cells, Color::Black, j as nat),
                white_count <= j,
                black_count <= j,
            decreases 64 - j,
        {
            match self.state[j] {
                Some(x) => {
                    if x.kind == Kind::King {
                        match x.color {
                            Color::White => {
                                white_count = white_count + 1;
                            },
                            Color::Black => {
                                black_count = black_count + 1;
                            },
                        }
                    }
                },
                None => {},
            }
            j = j + 1;
        }
        (white_count, black_count)
    }
}

impl ChessMove {
    /// Plays the move on the board: the piece moves (taking what stands on
    /// the target square and dropping that piece's ladder), is promoted and
    /// turned as the move says, a knight that takes a rook of its own side
    /// becomes a knook, the ladder counters of the side to move tick, a
    /// ladder move starts a ladder, a pawn on the en passant square takes
    /// en passant, the turn passes, a pawn's double step opens en passant,
    /// and a side left without a king loses.
    pub fn exec(self, state: &mut Board)
        requires
            well_formed(old(state)@),
            playable(old(state)@, self),
        ensures
            self.use_ladder ==> exists|k: (usize, u64)|
                !ladders_before_start(old(state)@, self).contains_key(k) && final(state)@ == play(
                    old(state)@,
                    self,
                    k,
                ),
            !self.use_ladder ==> final(state)@ == after(old(state)@, self),
            keeps_form(old(state)@, self) ==> well_formed(final(state)@),
    {
        let ghost v = state@;
        let from = self.from;
        let to = self.to;
        let ti = (to.rank * 8 + to.file) as usize;
        state.land(self);
        let ghost cells1 = state@.cells;
        state.tick_ladders();
        assert(ti as int == sq(to));
        assert(cells1[ti as int] is Some);
        assert(state.state@[ti as int] is Some);
        let ghost cells2 = state.state@;
        let ghost lad2 = ladder_slots(state.ladders);
        let ghost mut key: (usize, u64) = (0, 0);
        if self.use_ladder {
            let id = ladders_insert(&mut state.ladders, Ladder { start: to, end: to, built: false });
            let mut me = state.state[ti].unwrap();
            me.ladder_countdown = 3;
            me.ladder = LadderState::Building(id);
            state.state[ti] = Some(me);
            proof {
                key = id.key();
                assert(lad2 == ladders_before_start(v, self));
            }
        }
        assert(state.state@ =~= start_ladder(cells2, lad2, self, key).0);
        assert(ladder_slots(state.ladders) =~= start_ladder(cells2, lad2, self, key).1);
        let piece = state.state[ti].unwrap();
        let ep_hit = match state.en_passant {
            Some(e) => e == to,
            None => false,
        };
        if piece.kind == Kind::Pawn && ep_hit {
            match piece.color {
                Color::White => {
                    state.state[((to.rank - 1) * 8 + to.file) as usize] = None;
                },
                Color::Black => {
                    state.state[((to.rank + 1) * 8 + to.file) as usize] = None;
                },
            }
        }
        state.turn = match state.turn {
            Color::White => Color::Black,
            Color::Black => Color::White,
        };
        state.en_passant = None;
        if piece.kind == Kind::Pawn && (to.rank - from.rank == 2 || from.rank - to.rank == 2
            || to.file - from.file == 2 || from.file - to.file == 2) {
            state.en_passant = Some(
                Pos { rank: (to.rank + from.rank) / 2, file: (to.file + from.file) / 2 },
            );
        }
        if state.victory.is_none() {
            let (white_count, black_count) = state.count_kings();
            if white_count == 0 {
                state.victory = Some(Color::Black);
            } else if black_count == 0 {
                state.victory = Some(Color::White);
            }
        }
        proof {
            let w = play(v, self, key);
            assert(state.state@ =~= w.cells);
            assert(ladder_slots(state.ladders) =~= w.ladders);
            assert(state@ == w);
            if !self.use_ladder {
                assert(w == after(v, self));
            }
            if keeps_form(v, self) {
                lemma_play_form(v, self, key);
            }
        }
    }
}

// ---------------------------------------------------------------------------
// The starting position and the text of a board
// ---------------------------------------------------------------------------

/// The kind on a file of a back rank: rook, knight, bishop, queen, king,
/// bishop, knight, rook.
pub open spec fn back_rank(file: int) -> Kind {
    if file == 0 || file == 7 {
        Kind::Rook
    } else if file == 1 || file == 6 {
        Kind::Knight
    } else if file == 2 || file == 5 {
        Kind::Bishop
    } else if file == 3 {
        Kind::Queen
    } else {
        Kind::King
    }
}

/// The square `i` of the starting position: white on ranks 0 and 1, black
/// on ranks 6 and 7, pawns in front of the back ranks.
pub open spec fn initial_cell(i: int) -> Option<Piece> {
    let rank = i / 8;
    let file = i % 8;
    if rank == 0 {
        Some(fresh_piece(back_rank(file), Color::White))
    } else if rank == 1 {
        Some(fresh_piece(Kind::Pawn, Color::White))
    } else if rank == 6 {
        Some(fresh_piece(Kind::Pawn, Color::Black))
    } else if rank == 7 {
        Some(fresh_piece(back_rank(file), Color::Black))
    } else {
        None
    }
}

/// The starting position as a view.
pub open spec fn initial_view() -> BoardView {
    BoardView {
        rules: Rules { move_after_win: false, move_order: true },
        cells: Seq::new(64, |i: int| initial_cell(i)),
        turn: Color::White,
        victory: None,
        en_passant: None,
        ladders: Map::empty(),
    }
}

/// The letter of a square in the text of a board: a piece's letter, or `.`.
pub open spec fn cell_char(c: Option<Piece>) -> char {
    match c {
        Some(p) => piece_letter(p),
        None => '.',
    }
}

/// The line of the text of a board for one rank: its eight squares from
/// file 0, then a line break.
pub open spec fn rank_line(v: BoardView, rank: int) -> Seq<char> {
    Seq::new(8, |f: int| cell_char(v.cells[rank * 8 + f])).push('\n')
}

/// The lines of the `n` highest ranks, from rank 7 down.
pub open spec fn top_lines(v: BoardView, n: nat) -> Seq<char>
    decreases n,
{
    if n == 0 {
        Seq::empty()
    } else {
        top_lines(v, (n - 1) as nat) + rank_line(v, 8 - n)
    }
}

/// `String::push`: the character is appended.
#[verifier::external_body]
pub(crate) fn push_char(s: &mut String, c: char)
    ensures
        final(s)@ == old(s)@.push(c),
{
    s.push(c);
}

impl Board {
    /// The starting position: white to move, default rules, no ladders.
    pub fn new() -> (r: Board)
        ensures
            r@ == initial_view(),
            well_formed(r@),
    {
        let mut state: [Option<Piece>; 64] = [None; 64];
        let mut file: usize = 0;
        assert(state@ =~= Seq::new(64, |j: int| None::<Piece>));
        while file < 8
            invariant
                0 <= file <= 8,
                forall|j: int|
                    0 <= j < 64 ==> #[trigger] state@[j] == if j % 8 < file {
                        initial_cell(j)
                    } else {
                        None
                    },
            decreases 8 - file,
        {
            let back = if file == 0 || file == 7 {
                Kind::Rook
            } else if file == 1 || file == 6 {
                Kind::Knight
            } else if file == 2 || file == 5 {
                Kind::Bishop
            } else if file == 3 {
                Kind::Queen
            } else {
                Kind::King
            };
            state[file] = Some(Piece {
                kind: back,
                color: Color::White,
                direction: Direction::Up,
                moved: false,
                ladder: LadderState::Unused,
                ladder_countdown: 0,
            });
            state[8 + file] = Some(Piece {
                kind: Kind::Pawn,
                color: Color::White,
                direction: Direction::Up,
                moved: false,
                ladder: LadderState::Unused,
                ladder_countdown: 0,
            });
            state[48 + file] = Some(Piece {
                kind: Kind::Pawn,
                color: Color::Black,
                direction: Direction::Down,
                moved: false,
                ladder: LadderState::Unused,
                ladder_countdown: 0,
            });
            state[56 + file] = Some(Piece {
                kind: back,
                color: Color::Black,
                direction: Direction::Down,
                moved: false,
                ladder: LadderState::Unused,
                ladder_countdown: 0,
            });
            file = file + 1;
        }
        let r = Board {
            rules: Rules::default(),
            state,
            turn: Color::White,
            victory: None,
            en_passant: None,
            ladders: ladders_new(),
        };
        assert(r@.cells =~= Seq::new(64, |i: int| initial_cell(i)));
        assert(r@.ladders =~= Map::empty());
        r
    }

    /// The text of the board: one line per rank from rank 7 down, a
    /// piece's letter (upper case for white) or `.` per square.
    pub fn render(&self) -> (r: String)
        ensures
            r@ == top_lines(self@, 8),
    {
        let mut out = String::new();
        let mut n: usize = 0;
        while n < 8
            invariant
                0 <= n <= 8,
                self@.cells.len() == 64,
                out@ == top_lines(self@, n as nat),
            decreases 8 - n,
        {
            let rank = 7 - n;
            let ghost before = out@;
            let mut file: usize = 0;
            while file < 8
                invariant
                    0 <= file <= 8,
                    rank == 7 - n,
                    n < 8,
                    self@.cells.len() == 64,
                    out@ == before + Seq::new(file as nat, |f: int| cell_char(self@.cells[rank * 8 + f])),
                decreases 8 - file,
            {
                let c = match self.state[rank * 8 + file] {
                    Some(p) => p.letter(),
                    None => '.',
                };
                push_char(&mut out, c);
                assert(out@ =~= before + Seq::new((file + 1) as nat, |f: int| cell_char(self@.cells[rank * 8 + f])));
                file = file + 1;
            }
            push_char(&mut out, '\n');
            assert(out@ =~= top_lines(self@, (n + 1) as nat));
            n = n + 1;
        }
        out
    }
}

// ---------------------------------------------------------------------------
// Reading a position from its piece placement text
// ---------------------------------------------------------------------------

/// Where reading a piece placement stands.
pub enum FenScan {
    /// Reading on, at (rank, file), with the squares read so far.
    Reading { rank: int, file: int, cells: Seq<Option<Piece>> },
    /// A space ended the placement.
    Finished { cells: Seq<Option<Piece>> },
    /// A byte that is no piece letter, digit, slash or space.
    Invalid,
    /// A slash below the first rank or a piece beyond the last square:
    /// reading panics.
    Overflow,
}

/// The kind named by a piece letter, either case.
pub open spec fn fen_kind(b: u8) -> Option<Kind> {
    if b == 112 || b == 80 {
        Some(Kind::Pawn)
    } else if b == 114 || b == 82 {
        Some(Kind::Rook)
    } else if b == 110 || b == 78 {
        Some(Kind::Knight)
    } else if b == 98 || b == 66 {
        Some(Kind::Bishop)
    } else if b == 113 || b == 81 {
        Some(Kind::Queen)
    } else if b == 107 || b == 75 {
        Some(Kind::King)
    } else {
        None
    }
}

/// A fresh piece of the given kind and colour: white faces up, black down.
pub open spec fn fresh_piece(k: Kind, c: Color) -> Piece {
    Piece {
        kind: k,
        color: c,
        direction: match c {
            Color::White => Direction::Up,
            Color::Black => Direction::Down,
        },
        moved: false,
        ladder: LadderState::Unused,
        ladder_countdown: 0,
    }
}

/// The colour of a piece letter: upper case is white.
pub open spec fn fen_color(b: u8) -> Color {
    if 65 <= b <= 90 {
        Color::White
    } else {
        Color::Black
    }
}

/// Reading one byte: a space ends the placement, a slash goes down one
/// rank to its first file, a digit skips that many files, and a piece
/// letter puts a fresh piece on square `rank * 8 + file`.
pub open spec fn fen_step(st: FenScan, b: u8) -> FenScan {
    match st {
        FenScan::Reading { rank, file, cells } => {
            if b == 32 {
                FenScan::Finished { cells }
            } else if b == 47 {
                if rank == 0 {
                    FenScan::Overflow
                } else {
                    FenScan::Reading { rank: rank - 1, file: 0, cells }
                }
            } else {
                match fen_kind(b) {
                    Some(k) => if rank * 8 + file < 64 {
                        FenScan::Reading {
                            rank,
                            file: file + 1,
                            cells: cells.update(rank * 8 + file, Some(fresh_piece(k, fen_color(b)))),
                        }
                    } else {
                        FenScan::Overflow
                    },
                    None => if 49 <= b <= 56 {
                        FenScan::Reading { rank, file: file + (b - 48), cells }
                    } else {
                        FenScan::Invalid
                    },
                }
            }
        },
        _ => st,
    }
}

/// The state after reading the first `n` bytes, from rank 7, file 0 of an
/// empty board.
pub open spec fn fen_scan(bytes: Seq<u8>, n: nat) -> FenScan
    decreases n,
{
    if n == 0 {
        FenScan::Reading { rank: 7, file: 0, cells: Seq::new(64, |i: int| None::<Piece>) }
    } else {
        fen_step(fen_scan(bytes, (n - 1) as nat), bytes[n - 1])
    }
}

/// The squares read from a whole placement, if it is valid.
pub open spec fn fen_cells(bytes: Seq<u8>) -> Option<Seq<Option<Piece>>> {
    match fen_scan(bytes, bytes.len()) {
        FenScan::Reading { cells, .. } => Some(cells),
        FenScan::Finished { cells } => Some(cells),
        _ => None,
    }
}

/// Whether reading the placement panics.
pub open spec fn fen_overflows(bytes: Seq<u8>) -> bool {
    fen_scan(bytes, bytes.len()) is Overflow
}

/// What reading a placement gives.
enum FenOutcome {
    Read(Board),
    Invalid,
    Overflow,
}

impl Board {
    /// Reads the piece placement in `bytes`, rank 7 first, ranks separated
    /// by `/`; anything after a space is ignored.
    #[verifier::rlimit(30)]
    fn scan_fen(bytes: &[u8]) -> (r: FenOutcome)
        ensures
            match r {
                FenOutcome::Read(b) => fen_cells(bytes@) == Some(b@.cells) && b@.rules == (Rules {
                    move_after_win: false,
                    move_order: true,
                }) && b@.turn == Color::White && b@.victory is None && b@.en_passant is None
                    && b@.ladders.is_empty() && well_formed(b@),
                FenOutcome::Invalid => fen_cells(bytes@) is None && !fen_overflows(bytes@),
                FenOutcome::Overflow => fen_overflows(bytes@),
            },
    {
        let mut state: [Option<Piece>; 64] = [None; 64];
        let mut rank: usize = 7;
        let mut file: usize = 0;
        let mut i: usize = 0;
        assert(state@ =~= Seq::new(64, |i: int| None::<Piece>));
        while i < bytes.len()
            invariant
                0 <= i <= bytes@.len(),
                rank <= 7,
                file <= 64,
                fen_scan(bytes@, i as nat) == (FenScan::Reading {
                    rank: rank as int,
                    file: fen_scan(bytes@, i as nat)->file,
                    cells: state@,
                }),
                file as int == if fen_scan(bytes@, i as nat)->file < 64 {
                    fen_scan(bytes@, i as nat)->file
                } else {
                    64
                },
                fen_scan(bytes@, i as nat)->file >= 0,
                forall|j: int| 0 <= j < 64 && (#[trigger] state@[j]) is Some ==> state@[j]->0.ladder == LadderState::Unused,
            decreases bytes@.len() - i,
        {
            let b = bytes[i];
            let ghost sf = fen_scan(bytes@, i as nat)->file;
            if b == 32 {
                proof {
                    lemma_fen_absorbs(bytes@, (i + 1) as nat, bytes@.len());
                }
                return FenOutcome::Read(Board {
                    rules: Rules::default(),
                    state,
                    turn: Color::White,
                    victory: None,
                    en_passant: None,
                    ladders: ladders_new(),
                });
            }
            if b == 47 {
                if rank == 0 {
                    proof {
                        lemma_fen_absorbs(bytes@, (i + 1) as nat, bytes@.len());
                    }
                    return FenOutcome::Overflow;
                }
                rank = rank - 1;
                file = 0;
            } else {
                let kind = if b == 112 || b == 80 {
                    Some(Kind::Pawn)
                } else if b == 114 || b == 82 {
                    Some(Kind::Rook)
                } else if b == 110 || b == 78 {
                    Some(Kind::Knight)
                } else if b == 98 || b == 66 {
                    Some(Kind::Bishop)
                } else if b == 113 || b == 81 {
                    Some(Kind::Queen)
                } else if b == 107 || b == 75 {
                    Some(Kind::King)
                } else {
                    None
                };
                match kind {
                    Some(k) => {
                        if rank * 8 + file >= 64 {
                            proof {
                                lemma_fen_absorbs(bytes@, (i + 1) as nat, bytes@.len());
                            }
                            return FenOutcome::Overflow;
                        }
                        let color = if 65 <= b && b <= 90 {
                            Color::White
                        } else {
                            Color::Black
                        };
                        let direction = match color {
                            Color::White => Direction::Up,
                            Color::Black => Direction::Down,
                        };
                        state[rank * 8 + file] = Some(
                            Piece {
                                kind: k,
                                color,
                                direction,
                                moved: false,
                                ladder: LadderState::Unused,
                                ladder_countdown: 0,
                            },
                        );
                        file = file + 1;
                    },
                    None => {
                        if 49 <= b && b <= 56 {
                            let d = (b - 48) as usize;
                            file = if file + d > 64 {
                                64
                            } else {
                                file + d
                            };
                        } else {
                            proof {
                                lemma_fen_absorbs(bytes@, (i + 1) as nat, bytes@.len());
                            }
                            return FenOutcome::Invalid;
                        }
                    },
                }
            }
            i = i + 1;
        }
        FenOutcome::Read(Board {
            rules: Rules::default(),
            state,
            turn: Color::White,
            victory: None,
            en_passant: None,
            ladders: ladders_new(),
        })
    }

    /// Reads a position from the piece placement in `bytes` (rank 7 first,
    /// ranks separated by `/`, digits skipping files, upper case for white;
    /// anything after a space is ignored): white to move, default rules, no
    /// ladders. It fails on a byte that is none of these.
    pub fn parse_fen(bytes: &[u8]) -> (r: Result<Board, ()>)
        requires
            !fen_overflows(bytes@),
        ensures
            r is Ok <==> fen_cells(bytes@) is Some,
            r matches Ok(b) ==> b@.cells == fen_cells(bytes@)->0 && b@.rules == (Rules {
                move_after_win: false,
                move_order: true,
            }) && b@.turn == Color::White && b@.victory is None && b@.en_passant is None
                && b@.ladders.is_empty() && well_formed(b@),
    {
        match Board::scan_fen(bytes) {
            FenOutcome::Read(b) => Ok(b),
            _ => Err(()),
        }
    }
}

proof fn lemma_fen_absorbs(bytes: Seq<u8>, n: nat, m: nat)
    requires
        n <= m,
        !(fen_scan(bytes, n) is Reading),
    ensures
        fen_scan(bytes, m) == fen_scan(bytes, n),
    decreases m - n,
{
    if m > n {
        lemma_fen_absorbs(bytes, n, (m - 1) as nat);
    }
}

impl std::str::FromStr for Board {
    type Err = ();

    /// Reads a position as `parse_fen` does. `parse_fen` leaves out, by its
    /// `requires`, the placements that run off the board (a piece past the
    /// last square, a rank below the first), on which reading them panics;
    /// `from_str` cannot take a `requires`, and answers `Err` on those.
    fn from_str(s: &str) -> (r: Result<Board, ()>)
        ensures
            r is Ok <==> fen_cells(s.spec_bytes()) is Some,
            r matches Ok(b) ==> b@.cells == fen_cells(s.spec_bytes())->0 && b@.rules == (Rules {
                move_after_win: false,
                move_order: true,
            }) && b@.turn == Color::White && b@.victory is None && b@.en_passant is None
                && b@.ladders.is_empty() && well_formed(b@),
    {
        match Board::scan_fen(s.as_bytes()) {
            FenOutcome::Read(b) => Ok(b),
            _ => Err(()),
        }
    }
}

} // verus!
