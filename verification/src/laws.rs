//! Properties of the rules, of playing moves, of replaying events and of
//! the decisions of server and client, each under the hypotheses that its
//! `requires` states.

use vstd::prelude::*;
use crate::board::{in_board, piece_at, tile, well_formed, BoardView, Tile};
use crate::chess_move::ChessMove;
use crate::client::offered;
use crate::net::ChessEvent;
use crate::server::takes_move;
use crate::table::{applied, replayed};
use crate::board::{cell_char, on_board, square, top_lines};
use crate::client::shown_direction;
use crate::piece::{piece_letter, Ladder, Piece};
use crate::rules::{
    ahead, cells_after_landing, en_passant_victim, landed, lookahead_safe, playable, sq,
    start_ladder, tick, ticks,
};
use crate::chess_move::{ladder_move, rotation_move};
use crate::piece::LadderState;
use crate::rules::{last_rank, may_move, offered_advance, pawn_advance, promotion_kind, stopped};
use crate::piece::{opponent, reverse, rotated, turn_left, turn_right, Color, Direction, Kind, Pos};
use crate::rules::{
    after, any_forced, forced, generates, king_offsets, kings, knight_offsets, ladder_climb,
    lands, legal, mover, open_for, pattern_move, piece_move, play, ray, slide_move, tile_at,
};

verus! {

/// Turning to the other colour twice gives the colour back.
pub proof fn law_opponent_involutive(c: Color)
    ensures
        opponent(opponent(c)) == c,
{
}

/// A half turn twice, a quarter turn left then right, and right then left,
/// each give the direction back; two quarter turns the same way make a
/// half turn.
pub proof fn law_turns(d: Direction)
    ensures
        reverse(reverse(d)) == d,
        turn_right(turn_left(d)) == d,
        turn_left(turn_right(d)) == d,
        turn_left(turn_left(d)) == reverse(d),
        turn_right(turn_right(d)) == reverse(d),
{
}

/// Turning a displacement up leaves it as it is, and turning it left then
/// right (or down twice) gives it back.
pub proof fn law_rotations(p: Pos)
    requires
        p.rank > i32::MIN,
        p.file > i32::MIN,
    ensures
        rotated(p, Direction::Up) == p,
        rotated(rotated(p, Direction::Left), Direction::Right) == p,
        rotated(rotated(p, Direction::Down), Direction::Down) == p,
{
}

/// Every move passes the turn to the other side.
pub proof fn law_move_passes_turn(v: BoardView, mv: ChessMove, k: (usize, u64))
    ensures
        play(v, mv, k).turn == opponent(v.turn),
{
}

/// A win stands: once a side has won, no move changes the winner.
pub proof fn law_victory_stands(v: BoardView, mv: ChessMove, k: (usize, u64))
    requires
        v.victory is Some,
    ensures
        play(v, mv, k).victory == v.victory,
{
}

/// A side without a king after a move has lost, white first: if white has
/// no king left, black wins; otherwise if black has none, white wins.
pub proof fn law_kingless_side_loses(v: BoardView, mv: ChessMove, k: (usize, u64))
    requires
        v.victory is None,
    ensures
        kings(play(v, mv, k).cells, Color::White, 64) == 0 ==> play(v, mv, k).victory == Some(
            Color::Black,
        ),
        kings(play(v, mv, k).cells, Color::White, 64) != 0 && kings(play(v, mv, k).cells, Color::Black, 64)
            == 0 ==> play(v, mv, k).victory == Some(Color::White),
        kings(play(v, mv, k).cells, Color::White, 64) != 0 && kings(play(v, mv, k).cells, Color::Black, 64)
            != 0 ==> play(v, mv, k).victory is None,
{
}

/// Once a side has won, under rules that forbid moves after a win, no move
/// is legal.
pub proof fn law_no_move_after_victory(v: BoardView, mv: ChessMove)
    requires
        v.victory is Some,
        !v.rules.move_after_win,
    ensures
        !legal(v, mv),
{
}

/// An empty square, or one off the board, has no legal move.
pub proof fn law_empty_squares_do_not_move(v: BoardView, mv: ChessMove)
    requires
        in_board(mv.from) ==> piece_at(v, mv.from) is None,
    ensures
        !legal(v, mv),
{
}

/// Under the move order, a legal move moves a piece of the side whose turn
/// it is, and after it no piece of that side may move.
pub proof fn law_move_order(v: BoardView, mv: ChessMove, next: ChessMove)
    requires
        v.rules.move_order,
        legal(v, mv),
        !mv.use_ladder,
        piece_at(after(v, mv), next.from) matches Some(q) && q.color == v.turn,
    ensures
        piece_at(v, mv.from) matches Some(p) && p.color == v.turn,
        !generates(after(v, mv), next),
{
}

/// When some move is forced, only a forced move is legal.
pub proof fn law_forced_moves_first(v: BoardView, mv: ChessMove)
    requires
        any_forced(v),
        legal(v, mv),
    ensures
        forced(v, true, mv),
{
}

proof fn lemma_ray_lands(
    v: BoardView,
    c: Color,
    rank: int,
    file: int,
    dr: int,
    df: int,
    to: Pos,
)
    requires
        ray(v, c, rank, file, dr, df, to),
    ensures
        in_board(to),
        open_for(tile(v, to.rank as int, to.file as int), c),
    decreases crate::rules::ray_room(rank, file, dr, df),
{
    let nr = rank + dr;
    let nf = file + df;
    if !(to.rank == nr && to.file == nf) {
        lemma_ray_lands(v, c, nr, nf, dr, df, to);
    }
}

/// What a generated move lands on: a square of the board, holding no piece
/// of the mover's colour unless the mover is a knight landing on its own
/// rook or the move keeps the piece on its square.
pub open spec fn lands_fairly(v: BoardView, mv: ChessMove) -> bool {
    &&& in_board(mv.to)
    &&& (mv.from != mv.to ==> (piece_at(v, mv.to) matches Some(q) ==> (piece_at(v, mv.from)->0.color
        != q.color || (piece_at(v, mv.from)->0.kind == Kind::Knight && q.kind == Kind::Rook))))
}

/// Pieces stay on the board and take no piece of their own colour (a knight
/// may land on its own rook, to become a knook). The en passant square is
/// taken to be empty, as it is after every double step.
pub proof fn law_moves_stay_on_board(v: BoardView, mv: ChessMove)
    requires
        well_formed(v),
        v.en_passant matches Some(e) ==> piece_at(v, e) is None,
        generates(v, mv),
    ensures
        lands_fairly(v, mv),
{
    let p = mover(v, mv)->0;
    let pos = mv.from;
    let t = tile(v, mv.to.rank as int, mv.to.file as int);
    assert(piece_move(v, pos, p, mv));
    if ladder_climb(v, pos, mv) {
        assert(t == Tile::Empty);
    } else {
        match p.kind {
            Kind::King => {
                let q = choose|q: int| 0 <= q < king_offsets().len() && mv == crate::chess_move::plain_move(pos, crate::rules::offset_target(pos, king_offsets()[q])) && lands(tile_at(v, crate::rules::offset_target(pos, #[trigger] king_offsets()[q])), p.color, false);
            },
            Kind::Bishop | Kind::Rook | Kind::Queen => {
                let dirs = match p.kind {
                    Kind::Bishop => crate::rules::bishop_dirs(),
                    Kind::Rook => crate::rules::rook_dirs(),
                    _ => king_offsets(),
                };
                let q = choose|q: int| 0 <= q < dirs.len() && ray(v, p.color, pos.rank as int, pos.file as int, (#[trigger] dirs[q]).1 as int, dirs[q].0 as int, mv.to);
                lemma_ray_lands(v, p.color, pos.rank as int, pos.file as int, dirs[q].1 as int, dirs[q].0 as int, mv.to);
            },
            Kind::Knight => {
                if pattern_move(v, pos, p.color, knight_offsets(), true, mv) {
                    let q = choose|q: int| 0 <= q < knight_offsets().len() && mv == crate::chess_move::plain_move(pos, crate::rules::offset_target(pos, knight_offsets()[q])) && lands(tile_at(v, crate::rules::offset_target(pos, #[trigger] knight_offsets()[q])), p.color, true);
                }
            },
            Kind::Knook => {
                if slide_move(v, pos, p.color, crate::rules::rook_dirs(), mv) {
                    let dirs = crate::rules::rook_dirs();
                    let q = choose|q: int| 0 <= q < dirs.len() && ray(v, p.color, pos.rank as int, pos.file as int, (#[trigger] dirs[q]).1 as int, dirs[q].0 as int, mv.to);
                    lemma_ray_lands(v, p.color, pos.rank as int, pos.file as int, dirs[q].1 as int, dirs[q].0 as int, mv.to);
                } else {
                    let q = choose|q: int| 0 <= q < knight_offsets().len() && mv == crate::chess_move::plain_move(pos, crate::rules::offset_target(pos, knight_offsets()[q])) && lands(tile_at(v, crate::rules::offset_target(pos, #[trigger] knight_offsets()[q])), p.color, false);
                }
            },
            Kind::Pawn => {
                if crate::rules::pawn_advance(v, pos, p, mv) {
                    assert(crate::rules::pawn_target(v, pos, p, mv.to));
                }
            },
        }
    }
    if t == Tile::EnPassant {
        assert(in_board(mv.to));
    }
}

/// Under the move order, a move that the client lets a player make on
/// their turn is one that the server takes from that player.
pub proof fn law_offered_moves_are_taken(v: BoardView, color: Color, m: ChessMove)
    requires
        v.rules.move_order,
        v.turn == color,
        offered(v, m),
    ensures
        takes_move(v, color, m),
{
}

/// Whether the event is a move that starts a ladder.
pub open spec fn starts_ladder(ev: ChessEvent) -> bool {
    ev matches ChessEvent::Move(mv) && mv.use_ladder
}

/// Whether no move among the events starts a ladder.
pub open spec fn starts_no_ladder(evs: Seq<ChessEvent>) -> bool {
    forall|i: int| 0 <= i < evs.len() ==> !starts_ladder(#[trigger] evs[i])
}

/// Applying an event gives one board only, unless the event is a move
/// that starts a ladder (the ladder's key is the arena's choice).
pub proof fn law_events_apply_alike(v: BoardView, ev: ChessEvent, w1: BoardView, w2: BoardView)
    requires
        applied(v, ev, w1),
        applied(v, ev, w2),
        !starts_ladder(ev),
    ensures
        w1 == w2,
{
}

/// Two replays of the same events from the same board (the server's table
/// and a client that the server sent them to) end on the same board, as
/// long as no move among them starts a ladder.
pub proof fn law_replays_agree(v: BoardView, evs: Seq<ChessEvent>, w1: BoardView, w2: BoardView)
    requires
        replayed(v, evs, w1),
        replayed(v, evs, w2),
        starts_no_ladder(evs),
    ensures
        w1 == w2,
    decreases evs.len(),
{
    if evs.len() > 0 {
        let m1 = choose|mid: BoardView| replayed(v, evs.drop_last(), mid) && #[trigger] applied(mid, evs.last(), w1);
        let m2 = choose|mid: BoardView| replayed(v, evs.drop_last(), mid) && #[trigger] applied(mid, evs.last(), w2);
        assert(starts_no_ladder(evs.drop_last())) by {
            assert forall|i: int| 0 <= i < evs.drop_last().len() implies !starts_ladder(#[trigger] evs.drop_last()[i]) by {
                assert(evs.drop_last()[i] == evs[i]);
            }
        }
        law_replays_agree(v, evs.drop_last(), m1, m2);
        assert(!starts_ladder(evs[evs.len() - 1]));
        law_events_apply_alike(m1, evs.last(), w1, w2);
    }
}

/// A pawn that may move can turn a quarter either way on its square, but
/// not about; only pawns turn, and no turn is ever forced.
pub proof fn law_pawns_turn(v: BoardView, pos: Pos, deep: bool, mv: ChessMove)
    requires
        in_board(pos),
        piece_at(v, pos) matches Some(p) && p.kind == Kind::Pawn && may_move(v, p),
        !stopped(v),
    ensures
        generates(v, rotation_move(pos, turn_left(piece_at(v, pos)->0.direction))),
        generates(v, rotation_move(pos, turn_right(piece_at(v, pos)->0.direction))),
        !generates(v, rotation_move(pos, reverse(piece_at(v, pos)->0.direction))),
        generates(v, mv) && mv.direction is Some ==> (piece_at(v, mv.from) matches Some(q) && q.kind
            == Kind::Pawn),
        forced(v, deep, mv) ==> mv.direction is None,
{
}

/// A knight that may move offers to start a ladder on its square exactly
/// when it has never built one.
pub proof fn law_knight_ladder(v: BoardView, pos: Pos)
    requires
        in_board(pos),
        piece_at(v, pos) matches Some(n) && n.kind == Kind::Knight && may_move(v, n),
        !stopped(v),
    ensures
        generates(v, ladder_move(pos)) <==> piece_at(v, pos)->0.ladder == LadderState::Unused,
{
}

/// Only a pawn promotes: moving off its square, straight onto its last
/// rank, to one of the five kinds, each of which it is offered.
pub proof fn law_promotions(v: BoardView, mv: ChessMove, k: Kind)
    requires
        well_formed(v),
        generates(v, mv),
        mv.promotion == Some(k),
    ensures
        piece_at(v, mv.from) matches Some(p) && p.kind == Kind::Pawn && mv.to.rank == last_rank(
            p.color,
        ),
        promotion_kind(k),
        mv.direction is None,
        mv.from != mv.to,
        forall|k2: Kind| promotion_kind(k2) ==> #[trigger] generates(v, ChessMove { promotion: Some(k2), ..mv }),
{
    let p = piece_at(v, mv.from)->0;
    assert(pawn_advance(v, mv.from, p, mv));
    assert forall|k2: Kind| promotion_kind(k2) implies #[trigger] generates(v, ChessMove { promotion: Some(k2), ..mv }) by {
        assert(pawn_advance(v, mv.from, p, ChessMove { promotion: Some(k2), ..mv }));
    }
}

/// Replaying events one list after another is replaying the joined list:
/// loading `a` and then `b` on a table does what loading `a + b` does.
pub proof fn law_replay_composes(
    v: BoardView,
    a: Seq<ChessEvent>,
    b: Seq<ChessEvent>,
    m: BoardView,
    w: BoardView,
)
    requires
        replayed(v, a, m),
        replayed(m, b, w),
    ensures
        replayed(v, a + b, w),
    decreases b.len(),
{
    if b.len() == 0 {
        assert(a + b =~= a);
    } else {
        let mid = choose|mid: BoardView| replayed(m, b.drop_last(), mid) && #[trigger] applied(mid, b.last(), w);
        law_replay_composes(v, a, b.drop_last(), m, mid);
        assert((a + b).drop_last() =~= a + b.drop_last());
        assert((a + b).last() == b.last());
        assert(applied(mid, (a + b).last(), w));
    }
}

/// A pawn steps two squares ahead only over an empty square: when a pawn
/// is offered the square two steps ahead of it (in the way it faces), not
/// along a ladder, the square one step ahead and the target are empty, and
/// the pawn has not moved yet.
pub proof fn law_double_step_needs_a_clear_path(v: BoardView, mv: ChessMove, p: Piece)
    requires
        generates(v, mv),
        !ladder_climb(v, mv.from, mv),
        piece_at(v, mv.from) == Some(p),
        p.kind == Kind::Pawn,
        mv.to == ahead(mv.from, 2, 0, p.direction),
    ensures
        tile_at(v, ahead(mv.from, 1, 0, p.direction)) == Tile::Empty,
        tile_at(v, mv.to) == Tile::Empty,
        !p.moved,
{
}

/// Taking en passant removes the pawn that was passed, whichever side
/// takes: when the en passant square (off the edge ranks, as it always is
/// after a double step) is the target and a pawn stands on it after the
/// move, the square behind it, seen from the taker's side, is empty.
pub proof fn law_en_passant_takes_the_pawn(v: BoardView, mv: ChessMove, k: (usize, u64), q: Piece)
    requires
        v.cells.len() == 64,
        in_board(mv.from),
        in_board(mv.to),
        1 <= mv.to.rank <= 6,
        v.en_passant == Some(mv.to),
        piece_at(play(v, mv, k), mv.to) == Some(q),
        q.kind == Kind::Pawn,
    ensures
        q.color == Color::White ==> play(v, mv, k).cells[square(mv.to.rank - 1, mv.to.file as int)] is None,
        q.color == Color::Black ==> play(v, mv, k).cells[square(mv.to.rank + 1, mv.to.file as int)] is None,
{
    let (pl, lad1) = landed(v, mv);
    let cells1 = cells_after_landing(v, mv);
    lemma_ticks_len(cells1, lad1, v.turn, 64);
    let (cells2, lad2) = ticks(cells1, lad1, v.turn, 64);
    let (cells3, lad3) = start_ladder(cells2, lad2, mv, k);
    assert(cells3.len() == 64);
    let piece = cells3[sq(mv.to)]->0;
    let (r, f) = en_passant_victim(piece.color, mv.to);
    assert(on_board(r, f));
    assert(square(r, f) != sq(mv.to));
    if piece.kind == Kind::Pawn {
        let cells4 = cells3.update(square(r, f), None);
        assert(play(v, mv, k).cells == cells4);
        assert(cells4[sq(mv.to)] == cells3[sq(mv.to)]);
        assert(cells3[sq(mv.to)] == Some(q));
        assert(piece == q);
    } else {
        assert(play(v, mv, k).cells == cells3);
        assert(cells3[sq(mv.to)] == Some(q));
    }
}

/// Ticking the ladder counters keeps the number of squares.
proof fn lemma_ticks_len(cells: Seq<Option<Piece>>, lad: Map<(usize, u64), Ladder>, turn: Color, n: nat)
    requires
        cells.len() == 64,
        n <= 64,
    ensures
        ticks(cells, lad, turn, n).0.len() == 64,
    decreases n,
{
    if n > 0 {
        lemma_ticks_len(cells, lad, turn, (n - 1) as nat);
        let (c, l) = ticks(cells, lad, turn, (n - 1) as nat);
        assert(tick(c, l, turn, n - 1).0.len() == c.len());
        assert(ticks(cells, lad, turn, n) == tick(c, l, turn, n - 1));
    }
}

/// A piece's letter tells its kind and its colour: two pieces with the same
/// letter are of the same kind and colour.
pub proof fn law_letters_name_pieces(p: Piece, q: Piece)
    requires
        piece_letter(p) == piece_letter(q),
    ensures
        p.kind == q.kind,
        p.color == q.color,
        piece_letter(p) != '.',
        piece_letter(p) != '\n',
{
}

/// The server takes every legal move of the player's own piece that builds
/// no ladder, on a board where checking and playing it cannot panic.
pub proof fn law_legal_moves_are_taken(v: BoardView, c: Color, m: ChessMove, p: Piece)
    requires
        legal(v, m),
        playable(v, m),
        lookahead_safe(v),
        piece_at(v, m.from) == Some(p),
        p.color == c,
        !(p.ladder is Building),
    ensures
        takes_move(v, c, m),
{
}

/// Each player sees their own pieces as they face on their own side of
/// the board: white as they are, black turned a half turn; and turning a
/// piece about turns its drawing about, for either viewer.
pub proof fn law_own_pieces_are_drawn_from_the_owner_side(p: Piece, viewer: Color)
    ensures
        p.color == viewer && viewer == Color::White ==> shown_direction(p, viewer) == p.direction,
        p.color == viewer && viewer == Color::Black ==> shown_direction(p, viewer) == reverse(
            p.direction,
        ),
        shown_direction(Piece { direction: reverse(p.direction), ..p }, viewer) == reverse(
            shown_direction(p, viewer),
        ),
{
}

/// A slide ends on the line it started along: `to` differs from the start
/// by a whole number of steps (dr, df), at least one.
proof fn lemma_ray_line(
    v: BoardView,
    c: Color,
    rank: int,
    file: int,
    dr: int,
    df: int,
    to: Pos,
)
    requires
        ray(v, c, rank, file, dr, df, to),
    ensures
        (to.rank - rank) * df == (to.file - file) * dr,
        (to.rank - rank) * dr >= 0,
        (to.file - file) * df >= 0,
        to.rank != rank || to.file != file,
    decreases crate::rules::ray_room(rank, file, dr, df),
{
    let nr = rank + dr;
    let nf = file + df;
    if !(to.rank == nr && to.file == nf) {
        lemma_ray_line(v, c, nr, nf, dr, df, to);
        let a = to.rank - nr;
        let b = to.file - nf;
        assert((a + dr) * df == (b + df) * dr) by (nonlinear_arith)
            requires
                a * df == b * dr,
        ;
        assert((a + dr) * dr >= 0) by (nonlinear_arith)
            requires
                a * dr >= 0,
        ;
        assert((b + df) * df >= 0) by (nonlinear_arith)
            requires
                b * df >= 0,
        ;
        if to.rank == rank && to.file == file {
            assert(a == -dr && b == -df);
            assert(a * dr == -(dr * dr)) by (nonlinear_arith)
                requires
                    a == -dr,
            ;
            assert(b * df == -(df * df)) by (nonlinear_arith)
                requires
                    b == -df,
            ;
            assert(dr * dr > 0 || df * df > 0) by (nonlinear_arith)
                requires
                    dr != 0 || df != 0,
            ;
        }
    } else {
        assert(dr * df == df * dr) by (nonlinear_arith);
        assert(dr * dr >= 0 && df * df >= 0) by (nonlinear_arith);
    }
}

/// The signed distance that a move goes in ranks.
pub open spec fn rank_step(mv: ChessMove) -> int {
    mv.to.rank - mv.from.rank
}

/// The signed distance that a move goes in files.
pub open spec fn file_step(mv: ChessMove) -> int {
    mv.to.file - mv.from.file
}

/// |x|
pub open spec fn size(x: int) -> int {
    if x >= 0 {
        x
    } else {
        -x
    }
}

/// Each kind moves along its own lines (climbs along ladders aside): a rook
/// along its rank or file, a bishop along a diagonal, a queen along either,
/// a king one square, a knight an L-shaped jump, a knook as a rook or a
/// knight; every such move leaves its square.
pub proof fn law_pieces_move_in_their_lines(v: BoardView, mv: ChessMove, p: Piece)
    requires
        generates(v, mv),
        !ladder_climb(v, mv.from, mv),
        piece_at(v, mv.from) == Some(p),
        !mv.use_ladder,
    ensures
        p.kind != Kind::Pawn ==> mv.from != mv.to,
        p.kind == Kind::Rook ==> rank_step(mv) == 0 || file_step(mv) == 0,
        p.kind == Kind::Bishop ==> size(rank_step(mv)) == size(file_step(mv)),
        p.kind == Kind::Queen ==> rank_step(mv) == 0 || file_step(mv) == 0 || size(rank_step(mv))
            == size(file_step(mv)),
        p.kind == Kind::King ==> size(rank_step(mv)) <= 1 && size(file_step(mv)) <= 1,
        p.kind == Kind::Knight ==> (size(rank_step(mv)) == 1 && size(file_step(mv)) == 2) || (size(
            rank_step(mv),
        ) == 2 && size(file_step(mv)) == 1),
        p.kind == Kind::Knook ==> rank_step(mv) == 0 || file_step(mv) == 0 || (size(rank_step(mv))
            == 1 && size(file_step(mv)) == 2) || (size(rank_step(mv)) == 2 && size(file_step(mv)) == 1),
{
    let pos = mv.from;
    assert(piece_move(v, pos, p, mv));
    match p.kind {
        Kind::Bishop | Kind::Rook | Kind::Queen => {
            let dirs = match p.kind {
                Kind::Bishop => crate::rules::bishop_dirs(),
                Kind::Rook => crate::rules::rook_dirs(),
                _ => king_offsets(),
            };
            let q = choose|q: int| 0 <= q < dirs.len() && ray(v, p.color, pos.rank as int, pos.file as int, (#[trigger] dirs[q]).1 as int, dirs[q].0 as int, mv.to);
            let dr = dirs[q].1 as int;
            let df = dirs[q].0 as int;
            lemma_ray_line(v, p.color, pos.rank as int, pos.file as int, dr, df, mv.to);
            let a = rank_step(mv);
            let b = file_step(mv);
            if dr != 0 && df != 0 {
                if dr == df {
                    assert(a * df == b * df);
                    assert(a == b) by (nonlinear_arith)
                        requires
                            a * df == b * df,
                            df != 0,
                    ;
                } else {
                    assert(dr == -df);
                    assert(a * df == -(b * df)) by (nonlinear_arith)
                        requires
                            a * df == b * dr,
                            dr == -df,
                    ;
                    assert(a == -b) by (nonlinear_arith)
                        requires
                            a * df == -(b * df),
                            df != 0,
                    ;
                }
            } else if dr == 0 {
                assert(df != 0);
                assert(a * df == 0) by (nonlinear_arith)
                    requires
                        a * df == b * dr,
                        dr == 0,
                ;
                assert(a == 0) by (nonlinear_arith)
                    requires
                        a * df == 0,
                        df != 0,
                ;
            } else {
                assert(b * dr == 0) by (nonlinear_arith)
                    requires
                        a * df == b * dr,
                        df == 0,
                ;
                assert(b == 0) by (nonlinear_arith)
                    requires
                        b * dr == 0,
                        dr != 0,
                ;
            }
        },
        Kind::King => {
            let q = choose|q: int| 0 <= q < king_offsets().len() && mv == crate::chess_move::plain_move(pos, crate::rules::offset_target(pos, king_offsets()[q])) && lands(tile_at(v, crate::rules::offset_target(pos, #[trigger] king_offsets()[q])), p.color, false);
        },
        Kind::Knight => {
            let q = choose|q: int| 0 <= q < knight_offsets().len() && mv == crate::chess_move::plain_move(pos, crate::rules::offset_target(pos, knight_offsets()[q])) && lands(tile_at(v, crate::rules::offset_target(pos, #[trigger] knight_offsets()[q])), p.color, true);
        },
        Kind::Knook => {
            if slide_move(v, pos, p.color, crate::rules::rook_dirs(), mv) {
                let dirs = crate::rules::rook_dirs();
                let q = choose|q: int| 0 <= q < dirs.len() && ray(v, p.color, pos.rank as int, pos.file as int, (#[trigger] dirs[q]).1 as int, dirs[q].0 as int, mv.to);
                let dr = dirs[q].1 as int;
                let df = dirs[q].0 as int;
                lemma_ray_line(v, p.color, pos.rank as int, pos.file as int, dr, df, mv.to);
                let a = rank_step(mv);
                let b = file_step(mv);
                if dr == 0 {
                    assert(a * df == 0) by (nonlinear_arith)
                        requires
                            a * df == b * dr,
                            dr == 0,
                    ;
                    assert(a == 0) by (nonlinear_arith)
                        requires
                            a * df == 0,
                            df != 0,
                    ;
                } else {
                    assert(b * dr == 0) by (nonlinear_arith)
                        requires
                            a * df == b * dr,
                            df == 0,
                    ;
                    assert(b == 0) by (nonlinear_arith)
                        requires
                            b * dr == 0,
                            dr != 0,
                    ;
                }
            } else {
                let q = choose|q: int| 0 <= q < knight_offsets().len() && mv == crate::chess_move::plain_move(pos, crate::rules::offset_target(pos, knight_offsets()[q])) && lands(tile_at(v, crate::rules::offset_target(pos, #[trigger] knight_offsets()[q])), p.color, false);
            }
        },
        Kind::Pawn => {},
    }
}

/// Whether two squares hold the same piece as far as play shows it: both
/// empty, or pieces of the same kind, colour and facing that have moved
/// alike (their ladder counters aside).
pub open spec fn same_piece(a: Option<Piece>, b: Option<Piece>) -> bool {
    match (a, b) {
        (None, None) => true,
        (Some(x), Some(y)) => x.kind == y.kind && x.color == y.color && x.direction == y.direction
            && x.moved == y.moved,
        _ => false,
    }
}

/// Ticking the ladder counters changes no piece but in its ladder fields.
proof fn lemma_ticks_keep_pieces(
    cells: Seq<Option<Piece>>,
    lad: Map<(usize, u64), Ladder>,
    turn: Color,
    n: nat,
)
    requires
        cells.len() == 64,
        n <= 64,
    ensures
        ticks(cells, lad, turn, n).0.len() == 64,
        forall|j: int| 0 <= j < 64 ==> same_piece(#[trigger] ticks(cells, lad, turn, n).0[j], cells[j]),
    decreases n,
{
    if n > 0 {
        lemma_ticks_keep_pieces(cells, lad, turn, (n - 1) as nat);
        let (c, l) = ticks(cells, lad, turn, (n - 1) as nat);
        assert(ticks(cells, lad, turn, n) == tick(c, l, turn, n - 1));
        let c2 = tick(c, l, turn, n - 1).0;
        assert forall|j: int| 0 <= j < 64 implies same_piece(#[trigger] c2[j], cells[j]) by {
            assert(same_piece(c[j], cells[j]));
        }
    }
}

/// A move changes the board only on its own squares: the piece leaves its
/// square (unless it stays), a piece of the mover's colour stands on the
/// target, and every other square keeps its piece, but for the pawn taken
/// en passant when the en passant square is the target.
pub proof fn law_moves_touch_only_their_squares(v: BoardView, mv: ChessMove, k: (usize, u64), p: Piece)
    requires
        v.cells.len() == 64,
        in_board(mv.from),
        in_board(mv.to),
        piece_at(v, mv.from) == Some(p),
        v.en_passant == Some(mv.to) ==> 1 <= mv.to.rank <= 6,
    ensures
        mv.from != mv.to ==> play(v, mv, k).cells[sq(mv.from)] is None,
        play(v, mv, k).cells[sq(mv.to)] matches Some(q) && q.color == p.color,
        forall|j: int|
            0 <= j < 64 && j != sq(mv.from) && j != sq(mv.to) && !(v.en_passant == Some(mv.to) && (j
                == sq(mv.to) - 8 || j == sq(mv.to) + 8)) ==> same_piece(
                #[trigger] play(v, mv, k).cells[j],
                v.cells[j],
            ),
{
    let (pl, lad1) = landed(v, mv);
    let cells1 = cells_after_landing(v, mv);
    lemma_ticks_keep_pieces(cells1, lad1, v.turn, 64);
    let (cells2, lad2) = ticks(cells1, lad1, v.turn, 64);
    let (cells3, lad3) = start_ladder(cells2, lad2, mv, k);
    assert(cells3.len() == 64);
    assert(same_piece(cells2[sq(mv.to)], cells1[sq(mv.to)]));
    assert(cells1[sq(mv.to)] == Some(pl));
    assert(pl.color == p.color);
    assert(cells3[sq(mv.to)] matches Some(x) && x.color == p.color);
    let piece = cells3[sq(mv.to)]->0;
    let (r, f) = en_passant_victim(piece.color, mv.to);
    let cells4 = if piece.kind == Kind::Pawn && v.en_passant == Some(mv.to) {
        cells3.update(square(r, f), None)
    } else {
        cells3
    };
    assert(play(v, mv, k).cells == cells4);
    if piece.kind == Kind::Pawn && v.en_passant == Some(mv.to) {
        assert(on_board(r, f));
        assert(square(r, f) == sq(mv.to) - 8 || square(r, f) == sq(mv.to) + 8);
    }
    if mv.from != mv.to {
        assert(cells1[sq(mv.from)] is None);
        assert(same_piece(cells2[sq(mv.from)], cells1[sq(mv.from)]));
    }
    assert forall|j: int|
        0 <= j < 64 && j != sq(mv.from) && j != sq(mv.to) && !(v.en_passant == Some(mv.to) && (j
            == sq(mv.to) - 8 || j == sq(mv.to) + 8)) implies same_piece(
            #[trigger] play(v, mv, k).cells[j],
            v.cells[j],
        ) by {
        assert(same_piece(cells2[j], cells1[j]));
        assert(cells1[j] == v.cells[j]);
    }
}

/// A pawn goes only forward, the way it faces: one square onto an empty
/// square, two from its first square (see the double-step law), or one
/// square diagonally forward onto an enemy piece or the en passant square;
/// on its own square it only turns a quarter.
pub proof fn law_pawns_go_forward(v: BoardView, mv: ChessMove, p: Piece)
    requires
        generates(v, mv),
        !ladder_climb(v, mv.from, mv),
        piece_at(v, mv.from) == Some(p),
        p.kind == Kind::Pawn,
    ensures
        mv.from == mv.to ==> mv.promotion is None && (mv.direction == Some(turn_left(p.direction))
            || mv.direction == Some(turn_right(p.direction))),
        mv.from != mv.to ==> mv.to == ahead(mv.from, 1, 0, p.direction) || mv.to == ahead(
            mv.from,
            2,
            0,
            p.direction,
        ) || mv.to == ahead(mv.from, 1, -1i32, p.direction) || mv.to == ahead(mv.from, 1, 1, p.direction),
        mv.to == ahead(mv.from, 1, 0, p.direction) ==> tile_at(v, mv.to) == Tile::Empty,
        mv.to == ahead(mv.from, 1, -1i32, p.direction) || mv.to == ahead(mv.from, 1, 1, p.direction)
            ==> match tile_at(v, mv.to) {
            Tile::Occupied(x) => x.color != p.color,
            Tile::EnPassant => true,
            _ => false,
        },
{
}

/// After a move, there is an en passant square exactly when a pawn stands
/// on the target and went two squares in rank or in file; after a step
/// that is even in both (a double step), it lies halfway between where the
/// pawn started and where it stands.
pub proof fn law_en_passant_square_follows_double_steps(v: BoardView, mv: ChessMove, k: (usize, u64), p: Piece)
    requires
        v.cells.len() == 64,
        in_board(mv.from),
        in_board(mv.to),
        piece_at(v, mv.from) == Some(p),
        v.en_passant == Some(mv.to) ==> 1 <= mv.to.rank <= 6,
    ensures
        play(v, mv, k).en_passant is Some <==> (piece_at(play(v, mv, k), mv.to)->0.kind == Kind::Pawn
            && (size(rank_step(mv)) == 2 || size(file_step(mv)) == 2)),
        rank_step(mv) % 2 == 0 && file_step(mv) % 2 == 0 ==> (play(v, mv, k).en_passant matches Some(
            e,
        ) ==> 2 * e.rank == mv.from.rank + mv.to.rank && 2 * e.file == mv.from.file + mv.to.file),
{
    let (pl, lad1) = landed(v, mv);
    let cells1 = cells_after_landing(v, mv);
    lemma_ticks_keep_pieces(cells1, lad1, v.turn, 64);
    let (cells2, lad2) = ticks(cells1, lad1, v.turn, 64);
    let (cells3, lad3) = start_ladder(cells2, lad2, mv, k);
    assert(cells3.len() == 64);
    let piece = cells3[sq(mv.to)]->0;
    let (r, f) = en_passant_victim(piece.color, mv.to);
    if piece.kind == Kind::Pawn && v.en_passant == Some(mv.to) {
        assert(square(r, f) != sq(mv.to));
        assert(play(v, mv, k).cells[sq(mv.to)] == cells3[sq(mv.to)]);
    } else {
        assert(play(v, mv, k).cells == cells3);
    }
    assert(piece_at(play(v, mv, k), mv.to) == cells3[sq(mv.to)]);
    if rank_step(mv) % 2 == 0 && file_step(mv) % 2 == 0 {
        assert((mv.to.rank + mv.from.rank) % 2 == 0);
        assert((mv.to.file + mv.from.file) % 2 == 0);
    }
}

/// A knight that lands on a rook of the side to move becomes a knook of its
/// colour; any other piece keeps its kind, but for a promotion.
pub proof fn law_knight_on_own_rook_becomes_a_knook(v: BoardView, mv: ChessMove, k: (usize, u64), p: Piece)
    requires
        v.cells.len() == 64,
        in_board(mv.from),
        in_board(mv.to),
        mv.from != mv.to,
        piece_at(v, mv.from) == Some(p),
        v.en_passant == Some(mv.to) ==> 1 <= mv.to.rank <= 6,
    ensures
        p.kind == Kind::Knight && mv.promotion is None && (piece_at(v, mv.to) matches Some(x)
            && x.kind == Kind::Rook && x.color == v.turn) ==> (piece_at(play(v, mv, k), mv.to) matches Some(
            q,
        ) && q.kind == Kind::Knook && q.color == p.color),
        !(p.kind == Kind::Knight && (piece_at(v, mv.to) matches Some(x) && x.kind == Kind::Rook
            && x.color == v.turn)) && mv.promotion is None ==> (piece_at(play(v, mv, k), mv.to) matches Some(
            q,
        ) && q.kind == p.kind && q.color == p.color),
{
    let (pl, lad1) = landed(v, mv);
    let cells1 = cells_after_landing(v, mv);
    lemma_ticks_keep_pieces(cells1, lad1, v.turn, 64);
    let (cells2, lad2) = ticks(cells1, lad1, v.turn, 64);
    let (cells3, lad3) = start_ladder(cells2, lad2, mv, k);
    assert(cells3.len() == 64);
    assert(same_piece(cells2[sq(mv.to)], cells1[sq(mv.to)]));
    assert(cells1[sq(mv.to)] == Some(pl));
    let piece = cells3[sq(mv.to)]->0;
    let (r, f) = en_passant_victim(piece.color, mv.to);
    if piece.kind == Kind::Pawn && v.en_passant == Some(mv.to) {
        assert(square(r, f) != sq(mv.to));
        assert(play(v, mv, k).cells[sq(mv.to)] == cells3[sq(mv.to)]);
    } else {
        assert(play(v, mv, k).cells == cells3);
    }
    assert(piece_at(play(v, mv, k), mv.to) == cells3[sq(mv.to)]);
}

proof fn lemma_top_lines(v: BoardView, n: nat)
    requires
        n <= 8,
    ensures
        top_lines(v, n).len() == 9 * n,
        forall|r: int, f: int|
            0 <= r < n && 0 <= f < 8 ==> #[trigger] top_lines(v, n)[9 * r + f] == cell_char(
                v.cells[(7 - r) * 8 + f],
            ),
        forall|r: int| 0 <= r < n ==> #[trigger] top_lines(v, n)[9 * r + 8] == '\n',
    decreases n,
{
    if n > 0 {
        lemma_top_lines(v, (n - 1) as nat);
        let prev = top_lines(v, (n - 1) as nat);
        let line = crate::board::rank_line(v, 8 - n);
        assert(top_lines(v, n) == prev + line);
        assert forall|r: int, f: int|
            0 <= r < n && 0 <= f < 8 implies #[trigger] top_lines(v, n)[9 * r + f] == cell_char(
                v.cells[(7 - r) * 8 + f],
            ) by {
            if r < n - 1 {
                assert(top_lines(v, n)[9 * r + f] == prev[9 * r + f]);
            } else {
                assert(top_lines(v, n)[9 * r + f] == line[f]);
                assert((8 - n) * 8 + f == (7 - r) * 8 + f);
            }
        }
        assert forall|r: int| 0 <= r < n implies #[trigger] top_lines(v, n)[9 * r + 8] == '\n' by {
            if r < n - 1 {
                assert(top_lines(v, n)[9 * r + 8] == prev[9 * r + 8]);
            } else {
                assert(top_lines(v, n)[9 * r + 8] == line[8]);
            }
        }
    }
}

/// The text of a board has one line per rank, rank 7 first: on line `r`,
/// the character at file `f` is the letter of the piece on rank `7 - r`,
/// file `f` (or `.` for an empty square), and the ninth is a line break.
pub proof fn law_text_shows_the_board(v: BoardView)
    ensures
        top_lines(v, 8).len() == 72,
        forall|r: int, f: int|
            0 <= r < 8 && 0 <= f < 8 ==> #[trigger] top_lines(v, 8)[9 * r + f] == (match v.cells[(7 - r)
                * 8 + f] {
                Some(p) => piece_letter(p),
                None => '.',
            }),
        forall|r: int| 0 <= r < 8 ==> #[trigger] top_lines(v, 8)[9 * r + 8] == '\n',
{
    lemma_top_lines(v, 8);
}

} // verus!
