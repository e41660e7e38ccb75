//! What the rules say: which moves a board offers, which of them are forced,
//! and what playing a move does to a board.

use vstd::prelude::*;
use crate::board::{in_board, on_board, pos_of, square, tile, BoardView, Tile};
use crate::chess_move::{ladder_move, plain_move, rotation_move, ChessMove};
use crate::piece::{
    opponent, rotated, turn_left, turn_right, Color, Direction, Kind, Ladder, LadderId, LadderState,
    Piece, Pos,
};

verus! {

// ---------------------------------------------------------------------------
// Which moves a board offers
// ---------------------------------------------------------------------------

/// A board that has a winner and does not allow moves after a win offers
/// no moves.
pub open spec fn stopped(v: BoardView) -> bool {
    !v.rules.move_after_win && v.victory is Some
}

/// Whether a piece may move now: any piece when the move order is off,
/// otherwise only a piece of the side whose turn it is.
pub open spec fn may_move(v: BoardView, p: Piece) -> bool {
    !v.rules.move_order || p.color == v.turn
}

/// A piece of colour `c` may land on an empty square, the en passant square
/// or an enemy piece.
pub open spec fn open_for(t: Tile, c: Color) -> bool {
    match t {
        Tile::Occupied(x) => x.color != c,
        Tile::Empty => true,
        Tile::Void => false,
        Tile::EnPassant => true,
    }
}

/// A knight may also land on a rook of its own colour (it becomes a knook).
pub open spec fn knight_open(t: Tile, c: Color) -> bool {
    match t {
        Tile::Occupied(x) => x.color != c || x.kind == Kind::Rook,
        Tile::Empty => true,
        Tile::Void => false,
        Tile::EnPassant => true,
    }
}

/// A pawn of colour `c` may take onto an enemy piece or the en passant square.
pub open spec fn pawn_takeable(t: Tile, c: Color) -> bool {
    match t {
        Tile::Occupied(x) => x.color != c,
        Tile::EnPassant => true,
        _ => false,
    }
}

/// The tile at a position.
pub open spec fn tile_at(v: BoardView, p: Pos) -> Tile {
    tile(v, p.rank as int, p.file as int)
}

/// Steps `(dx, dy)` of a king (and the directions of a queen): `dy` ranks
/// and `dx` files.
pub open spec fn king_offsets() -> Seq<(i32, i32)> {
    seq![(-1i32, -1i32), (-1i32, 0i32), (-1i32, 1i32), (0i32, -1i32), (0i32, 1i32), (1i32, -1i32), (1i32, 0i32), (1i32, 1i32)]
}

/// Jumps `(dx, dy)` of a knight.
pub open spec fn knight_offsets() -> Seq<(i32, i32)> {
    seq![(-1i32, -2i32), (-1i32, 2i32), (1i32, -2i32), (1i32, 2i32), (2i32, -1i32), (2i32, 1i32), (-2i32, -1i32), (-2i32, 1i32)]
}

/// Directions `(dx, dy)` of a bishop.
pub open spec fn bishop_dirs() -> Seq<(i32, i32)> {
    seq![(1i32, 1i32), (1i32, -1i32), (-1i32, -1i32), (-1i32, 1i32)]
}

/// Directions `(dx, dy)` of a rook.
pub open spec fn rook_dirs() -> Seq<(i32, i32)> {
    seq![(1i32, 0i32), (-1i32, 0i32), (0i32, -1i32), (0i32, 1i32)]
}

/// The square `dy` ranks and `dx` files away from `pos`.
pub open spec fn offset_target(pos: Pos, d: (i32, i32)) -> Pos {
    Pos { rank: (pos.rank + d.1) as i32, file: (pos.file + d.0) as i32 }
}

/// Whether a piece of colour `c` may land on a tile; a knight (when
/// `knight_rule` holds) may also land on a rook of its own colour.
pub open spec fn lands(t: Tile, c: Color, knight_rule: bool) -> bool {
    if knight_rule {
        knight_open(t, c)
    } else {
        open_for(t, c)
    }
}

/// A step or jump from `pos` by one of `offs` onto a square that the piece
/// may land on.
pub open spec fn pattern_move(
    v: BoardView,
    pos: Pos,
    c: Color,
    offs: Seq<(i32, i32)>,
    knight_rule: bool,
    mv: ChessMove,
) -> bool {
    exists|i: int|
        0 <= i < offs.len() && mv == plain_move(pos, offset_target(pos, offs[i])) && lands(
            tile_at(v, offset_target(pos, #[trigger] offs[i])),
            c,
            knight_rule,
        )
}

/// The number of steps by which a ray from (rank, file) in direction
/// (dr, df) can still go on within the board.
pub open spec fn ray_room(rank: int, file: int, dr: int, df: int) -> int {
    if dr > 0 {
        8 - rank
    } else if dr < 0 {
        rank + 1
    } else if df > 0 {
        8 - file
    } else {
        file + 1
    }
}

/// Whether a piece of colour `c` sliding from (rank, file) in direction
/// (dr, df) reaches `to`: every square up to and including `to` is one it
/// may land on. Sliding goes on past an enemy piece; it stops at a piece of
/// its own colour and at the edge of the board.
pub open spec fn ray(
    v: BoardView,
    c: Color,
    rank: int,
    file: int,
    dr: int,
    df: int,
    to: Pos,
) -> bool
    decreases ray_room(rank, file, dr, df),
{
    let nr = rank + dr;
    let nf = file + df;
    if (dr == 0 && df == 0) || !on_board(nr, nf) {
        false
    } else {
        open_for(tile(v, nr, nf), c) && ((to.rank == nr && to.file == nf) || ray(
            v,
            c,
            nr,
            nf,
            dr,
            df,
            to,
        ))
    }
}

/// A slide from `pos` in one of the directions `dirs`.
pub open spec fn slide_move(
    v: BoardView,
    pos: Pos,
    c: Color,
    dirs: Seq<(i32, i32)>,
    mv: ChessMove,
) -> bool {
    mv == plain_move(pos, mv.to) && exists|i: int|
        0 <= i < dirs.len() && ray(
            v,
            c,
            pos.rank as int,
            pos.file as int,
            (#[trigger] dirs[i]).1 as int,
            dirs[i].0 as int,
            mv.to,
        )
}

/// The far end of a ladder seen from `pos`, if `pos` is one of its ends.
pub open spec fn ladder_target(l: Ladder, pos: Pos) -> Option<Pos> {
    if l.start == pos {
        Some(l.end)
    } else if l.end == pos {
        Some(l.start)
    } else {
        None
    }
}

/// A climb from `pos` along a built ladder onto an empty square.
pub open spec fn ladder_climb(v: BoardView, pos: Pos, mv: ChessMove) -> bool {
    mv == plain_move(pos, mv.to) && exists|l: Ladder|
        #[trigger] v.ladders.values().contains(l) && l.built && ladder_target(l, pos) == Some(mv.to)
            && tile_at(v, mv.to) == Tile::Empty
}

/// The rank on which a pawn of colour `c` promotes.
pub open spec fn last_rank(c: Color) -> int {
    match c {
        Color::White => 7,
        Color::Black => 0,
    }
}

/// The square `(rank, file)` ahead of `pos`, turned the way `d` faces.
pub open spec fn ahead(pos: Pos, rank: i32, file: i32, d: Direction) -> Pos {
    let r = rotated(Pos { rank, file }, d);
    Pos { rank: (pos.rank + r.rank) as i32, file: (pos.file + r.file) as i32 }
}

/// The squares a pawn on `pos` may go to: one square ahead if it is empty,
/// two squares ahead if the pawn has not moved and both are empty, and the
/// two squares diagonally ahead when it can take there.
pub open spec fn pawn_target(v: BoardView, pos: Pos, p: Piece, t: Pos) -> bool {
    let d = p.direction;
    let f1 = ahead(pos, 1, 0, d);
    let f2 = ahead(pos, 2, 0, d);
    let cl = ahead(pos, 1, -1i32, d);
    let cr = ahead(pos, 1, 1, d);
    let can1 = tile_at(v, f1) == Tile::Empty;
    ||| can1 && t == f1
    ||| can1 && !p.moved && tile_at(v, f2) == Tile::Empty && t == f2
    ||| pawn_takeable(tile_at(v, cl), p.color) && t == cl
    ||| pawn_takeable(tile_at(v, cr), p.color) && t == cr
}

/// The kinds a pawn may promote to.
pub open spec fn promotion_kind(k: Kind) -> bool {
    k == Kind::Rook || k == Kind::Knight || k == Kind::Bishop || k == Kind::Queen || k == Kind::King
}

/// A pawn's move onto one of its target squares, promoting on its last rank.
pub open spec fn pawn_advance(v: BoardView, pos: Pos, p: Piece, mv: ChessMove) -> bool {
    &&& mv.from == pos
    &&& pawn_target(v, pos, p, mv.to)
    &&& mv.direction is None
    &&& !mv.use_ladder
    &&& if mv.to.rank == last_rank(p.color) {
        mv.promotion matches Some(k) && promotion_kind(k)
    } else {
        mv.promotion is None
    }
}

/// A pawn's move: an advance or a quarter turn on its square.
pub open spec fn pawn_move(v: BoardView, pos: Pos, p: Piece, mv: ChessMove) -> bool {
    ||| pawn_advance(v, pos, p, mv)
    ||| mv == rotation_move(pos, turn_left(p.direction))
    ||| mv == rotation_move(pos, turn_right(p.direction))
}

/// The moves of the piece `p` on `pos`, by its kind, besides ladder climbs.
pub open spec fn kind_move(v: BoardView, pos: Pos, p: Piece, mv: ChessMove) -> bool {
    match p.kind {
        Kind::King => pattern_move(v, pos, p.color, king_offsets(), false, mv),
        Kind::Bishop => slide_move(v, pos, p.color, bishop_dirs(), mv),
        Kind::Rook => slide_move(v, pos, p.color, rook_dirs(), mv),
        Kind::Queen => slide_move(v, pos, p.color, king_offsets(), mv),
        Kind::Knight => pattern_move(v, pos, p.color, knight_offsets(), true, mv) || (p.ladder
            == LadderState::Unused && mv == ladder_move(pos)),
        Kind::Knook => slide_move(v, pos, p.color, rook_dirs(), mv) || pattern_move(
            v,
            pos,
            p.color,
            knight_offsets(),
            false,
            mv,
        ),
        Kind::Pawn => pawn_move(v, pos, p, mv),
    }
}

/// The moves of the piece `p` on `pos`.
pub open spec fn piece_move(v: BoardView, pos: Pos, p: Piece, mv: ChessMove) -> bool {
    ladder_climb(v, pos, mv) || kind_move(v, pos, p, mv)
}

/// The piece that may make the move `mv` now, if any.
pub open spec fn mover(v: BoardView, mv: ChessMove) -> Option<Piece> {
    if stopped(v) || !in_board(mv.from) {
        None
    } else {
        match v.cells[square(mv.from.rank as int, mv.from.file as int)] {
            Some(p) => if may_move(v, p) {
                Some(p)
            } else {
                None
            },
            None => None,
        }
    }
}

/// The moves that the board offers.
pub open spec fn generates(v: BoardView, mv: ChessMove) -> bool {
    mover(v, mv) matches Some(p) && piece_move(v, mv.from, p, mv)
}

/// A pawn advance that the board offers.
pub open spec fn offered_advance(v: BoardView, mv: ChessMove) -> bool {
    mover(v, mv) matches Some(p) && p.kind == Kind::Pawn && pawn_advance(v, mv.from, p, mv)
}

/// Whether some pawn may take en passant now.
pub open spec fn en_passant_open(v: BoardView) -> bool {
    exists|mv: ChessMove| #[trigger] offered_advance(v, mv) && tile_at(v, mv.to) == Tile::EnPassant
}

/// The pawn advances that are forced: taking en passant, and (looking one
/// move ahead when `deep`) leaving the opponent a chance to take en passant.
pub open spec fn forced(v: BoardView, deep: bool, mv: ChessMove) -> bool {
    offered_advance(v, mv) && (tile_at(v, mv.to) == Tile::EnPassant || (deep && en_passant_open(
        after(v, mv),
    )))
}

/// Whether some move is forced.
pub open spec fn any_forced(v: BoardView) -> bool {
    exists|m: ChessMove| #[trigger] forced(v, true, m)
}

/// A legal move: one the board offers and, when some move is forced, a
/// forced one.
pub open spec fn legal(v: BoardView, mv: ChessMove) -> bool {
    generates(v, mv) && (!any_forced(v) || forced(v, true, mv))
}

// ---------------------------------------------------------------------------
// What playing a move does
// ---------------------------------------------------------------------------

/// The index of a position in `BoardView::cells`.
pub open spec fn sq(p: Pos) -> int {
    square(p.rank as int, p.file as int)
}

/// Whether the piece that a move takes was a rook of the side to move.
pub open spec fn takes_friendly_rook(v: BoardView, mv: ChessMove) -> bool {
    v.cells[sq(mv.to)] matches Some(x) && x.kind == Kind::Rook && x.color == v.turn
}

/// The ladders once the taken piece's ladder under construction is gone.
pub open spec fn ladders_after_capture(v: BoardView, mv: ChessMove) -> Map<(usize, u64), Ladder> {
    match v.cells[sq(mv.to)] {
        Some(x) => match x.ladder {
            LadderState::Building(id) => v.ladders.remove(id.key()),
            _ => v.ladders,
        },
        None => v.ladders,
    }
}

/// The moving piece once it stands on its new square: marked as moved,
/// promoted and turned as the move says.
pub open spec fn moved_piece(p: Piece, mv: ChessMove) -> Piece {
    Piece {
        moved: if mv.from != mv.to {
            true
        } else {
            p.moved
        },
        kind: match mv.promotion {
            Some(k) => k,
            None => p.kind,
        },
        direction: match mv.direction {
            Some(d) => d,
            None => p.direction,
        },
        ..p
    }
}

/// Whether the move turns the moving knight into a knook.
pub open spec fn makes_knook(v: BoardView, mv: ChessMove) -> bool {
    takes_friendly_rook(v, mv) && moved_piece(v.cells[sq(mv.from)]->0, mv).kind == Kind::Knight
}

/// The knook that a knight becomes.
pub open spec fn knook_of(p: Piece) -> Piece {
    Piece {
        kind: Kind::Knook,
        color: p.color,
        direction: p.direction,
        moved: true,
        ladder: LadderState::Unused,
        ladder_countdown: 0,
    }
}

/// The piece on the target square and the ladders once the piece has moved.
pub open spec fn landed(v: BoardView, mv: ChessMove) -> (Piece, Map<(usize, u64), Ladder>) {
    let p = moved_piece(v.cells[sq(mv.from)]->0, mv);
    let lad = ladders_after_capture(v, mv);
    if makes_knook(v, mv) {
        (
            knook_of(p),
            match p.ladder {
                LadderState::Building(id) => lad.remove(id.key()),
                _ => lad,
            },
        )
    } else {
        (p, lad)
    }
}

/// The squares once the piece has moved.
pub open spec fn cells_after_landing(v: BoardView, mv: ChessMove) -> Seq<Option<Piece>> {
    v.cells.update(sq(mv.from), None).update(sq(mv.to), Some(landed(v, mv).0))
}

/// One tick of the ladder counters, on square `i`: a piece of colour `turn`
/// that builds a ladder drags the ladder's end to its square; when its
/// countdown is at one the ladder is finished (built, or dropped if both
/// ends coincide) and the piece is done with ladders. Every counter of
/// colour `turn` above zero goes down by one.
pub open spec fn tick(
    cells: Seq<Option<Piece>>,
    lad: Map<(usize, u64), Ladder>,
    turn: Color,
    i: int,
) -> (Seq<Option<Piece>>, Map<(usize, u64), Ladder>) {
    match cells[i] {
        None => (cells, lad),
        Some(p) => if p.color != turn {
            (cells, lad)
        } else {
            let (p2, lad2) = match p.ladder {
                LadderState::Building(id) => {
                    let l2 = Ladder { end: pos_of(i), ..lad[id.key()] };
                    if p.ladder_countdown == 1 {
                        (
                            Piece { ladder: LadderState::Spent, ..p },
                            if l2.start == l2.end {
                                lad.remove(id.key())
                            } else {
                                lad.insert(id.key(), Ladder { built: true, ..l2 })
                            },
                        )
                    } else {
                        (p, lad.insert(id.key(), l2))
                    }
                },
                _ => (p, lad),
            };
            let p3 = Piece {
                ladder_countdown: if p2.ladder_countdown > 0 {
                    (p2.ladder_countdown - 1) as u8
                } else {
                    0
                },
                ..p2
            };
            (cells.update(i, Some(p3)), lad2)
        },
    }
}

/// The ladder counters ticked on squares `0..n`, in order.
pub open spec fn ticks(
    cells: Seq<Option<Piece>>,
    lad: Map<(usize, u64), Ladder>,
    turn: Color,
    n: nat,
) -> (Seq<Option<Piece>>, Map<(usize, u64), Ladder>)
    decreases n,
{
    if n == 0 {
        (cells, lad)
    } else {
        let (c, l) = ticks(cells, lad, turn, (n - 1) as nat);
        tick(c, l, turn, n - 1)
    }
}

/// The squares and ladders once a ladder move has started a ladder under
/// the key `k`.
pub open spec fn start_ladder(
    cells: Seq<Option<Piece>>,
    lad: Map<(usize, u64), Ladder>,
    mv: ChessMove,
    k: (usize, u64),
) -> (Seq<Option<Piece>>, Map<(usize, u64), Ladder>) {
    if mv.use_ladder {
        let p = cells[sq(mv.to)]->0;
        (
            cells.update(
                sq(mv.to),
                Some(
                    Piece {
                        ladder_countdown: 3,
                        ladder: LadderState::Building(LadderId { index: k.0, generation: k.1 }),
                        ..p
                    },
                ),
            ),
            lad.insert(k, Ladder { start: mv.to, end: mv.to, built: false }),
        )
    } else {
        (cells, lad)
    }
}

/// The square of the pawn taken en passant by a pawn of colour `c` landing
/// on `to`.
pub open spec fn en_passant_victim(c: Color, to: Pos) -> (int, int) {
    match c {
        Color::White => (to.rank - 1, to.file as int),
        Color::Black => (to.rank + 1, to.file as int),
    }
}

/// The number of kings of colour `c` on squares `0..n`.
pub open spec fn kings(cells: Seq<Option<Piece>>, c: Color, n: nat) -> nat
    decreases n,
{
    if n == 0 {
        0
    } else {
        kings(cells, c, (n - 1) as nat) + if cells[n - 1] matches Some(p) && p.kind == Kind::King
            && p.color == c {
            1nat
        } else {
            0nat
        }
    }
}

/// |a - b|
pub open spec fn dist(a: i32, b: i32) -> int {
    if a >= b {
        a - b
    } else {
        b - a
    }
}

/// The board after the move `mv`, a new ladder (if the move starts one)
/// being stored under the key `k`.
pub open spec fn play(v: BoardView, mv: ChessMove, k: (usize, u64)) -> BoardView {
    let (p, lad1) = landed(v, mv);
    let cells1 = cells_after_landing(v, mv);
    let (cells2, lad2) = ticks(cells1, lad1, v.turn, 64);
    let (cells3, lad3) = start_ladder(cells2, lad2, mv, k);
    let piece = cells3[sq(mv.to)]->0;
    let cells4 = if piece.kind == Kind::Pawn && v.en_passant == Some(mv.to) {
        let (r, f) = en_passant_victim(piece.color, mv.to);
        cells3.update(square(r, f), None)
    } else {
        cells3
    };
    let en_passant = if piece.kind == Kind::Pawn && (dist(mv.to.rank, mv.from.rank) == 2 || dist(
        mv.to.file,
        mv.from.file,
    ) == 2) {
        Some(
            Pos {
                rank: ((mv.to.rank + mv.from.rank) / 2) as i32,
                file: ((mv.to.file + mv.from.file) / 2) as i32,
            },
        )
    } else {
        None
    };
    let victory = if v.victory is None {
        if kings(cells4, Color::White, 64) == 0 {
            Some(Color::Black)
        } else if kings(cells4, Color::Black, 64) == 0 {
            Some(Color::White)
        } else {
            None
        }
    } else {
        v.victory
    };
    BoardView {
        rules: v.rules,
        cells: cells4,
        turn: opponent(v.turn),
        victory,
        en_passant,
        ladders: lad3,
    }
}

/// The ladders just before a ladder move starts its ladder.
pub open spec fn ladders_before_start(v: BoardView, mv: ChessMove) -> Map<(usize, u64), Ladder> {
    ticks(cells_after_landing(v, mv), landed(v, mv).1, v.turn, 64).1
}

/// The board after a move that starts no ladder.
pub open spec fn after(v: BoardView, mv: ChessMove) -> BoardView {
    play(v, mv, (0, 0))
}

/// The moves that can be played on a well-formed board without a panic:
/// both squares on the board (a square off the board is refused even
/// where its rank and file, read as `rank * 8 + file`, would name one of
/// the 64 squares), a piece on the first; the piece, if it stays
/// on its square, builds no ladder that the move would drop under it (it
/// does when it is of the side to move, unless it is a rook promoted to a
/// knight); and a pawn that lands on the en passant square takes a pawn
/// that is on the board.
pub open spec fn playable(v: BoardView, mv: ChessMove) -> bool {
    &&& in_board(mv.from)
    &&& in_board(mv.to)
    &&& v.cells[sq(mv.from)] matches Some(p)
    &&& !(mv.from == mv.to && p.ladder is Building && p.color == v.turn && !(p.kind == Kind::Rook
        && mv.promotion == Some(Kind::Knight)))
    &&& ({
        let k = match mv.promotion {
            Some(k) => k,
            None => p.kind,
        };
        (k == Kind::Pawn && v.en_passant == Some(mv.to)) ==> on_board(
            en_passant_victim(p.color, mv.to).0,
            en_passant_victim(p.color, mv.to).1,
        )
    })
}

/// The moves after which the board stays well formed: all but those where
/// a piece that builds a ladder stays on its square and loses its ladder.
/// Playing such a move leaves the piece naming a ladder that the arena no
/// longer holds, and the next move of that piece's side then panics when it
/// advances that ladder, unless the piece was taken first. The library
/// refuses such a move before it is played.
pub open spec fn keeps_form(v: BoardView, mv: ChessMove) -> bool {
    v.cells[sq(mv.from)] matches Some(p) && !(mv.from == mv.to && p.ladder is Building && !(p.kind
        == Kind::Rook && p.color == v.turn && mv.promotion == Some(Kind::Knight)))
}

/// Boards on which looking one move ahead panics on no pawn advance.
pub open spec fn lookahead_safe(v: BoardView) -> bool {
    forall|mv: ChessMove| #[trigger] offered_advance(v, mv) ==> playable(v, mv)
}

} // verus!
