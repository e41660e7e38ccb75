//! Move generation and the legality check of a move.

use vstd::prelude::*;
use crate::board::{in_board, on_board, piece_at, square, tile, well_formed, Board, BoardView, Tile};
use crate::chess_move::{plain_move, ChessMove};
use crate::piece::{Color, Kind, Ladder, LadderState, Piece, Pos};
use crate::rules::{
    after, ahead, bishop_dirs, en_passant_open, forced, generates, king_offsets, knight_offsets,
    ladder_climb, ladder_target, lands, last_rank, legal, lookahead_safe, may_move, mover,
    offered_advance, open_for, pattern_move, pawn_advance, pawn_move, pawn_target, piece_move,
    playable, promotion_kind, ray, ray_room, rook_dirs, slide_move, sq, stopped, tile_at,
};

verus! {

/// Adds a move to a list of moves.
fn push_move(moves: &mut Vec<ChessMove>, mv: ChessMove)
    ensures
        forall|m: ChessMove| #[trigger] final(moves)@.contains(m) <==> old(moves)@.contains(m) || m == mv,
{
    let ghost s = moves@;
    moves.push(mv);
    proof {
        assert forall|m: ChessMove| #[trigger] moves@.contains(m) <==> s.contains(m) || m == mv by {
            if m == mv {
                assert(moves@[s.len() as int] == mv);
            }
            if s.contains(m) {
                let i = choose|i: int| 0 <= i < s.len() && s[i] == m;
                assert(moves@[i] == m);
            }
            if moves@.contains(m) {
                let i = choose|i: int| 0 <= i < moves@.len() && moves@[i] == m;
                if i < s.len() {
                    assert(s[i] == m);
                }
            }
        }
    }
}

/// A climb along the ladder `l`.
pub open spec fn climb_via(v: BoardView, pos: Pos, l: Ladder, m: ChessMove) -> bool {
    m == plain_move(pos, m.to) && l.built && ladder_target(l, pos) == Some(m.to) && tile_at(v, m.to)
        == Tile::Empty
}

/// The hit of the `q`-th step or jump of a pattern.
pub open spec fn pattern_hit(
    v: BoardView,
    pos: Pos,
    c: Color,
    offs: Seq<(i32, i32)>,
    knight_rule: bool,
    q: int,
    m: ChessMove,
) -> bool {
    let t = crate::rules::offset_target(pos, offs[q]);
    m == plain_move(pos, t) && lands(tile_at(v, t), c, knight_rule)
}

/// Small displacements, so that a step from a square of the board stays in
/// `i32`.
pub open spec fn small_offsets(offs: Seq<(i32, i32)>) -> bool {
    forall|q: int| 0 <= q < offs.len() ==> -2 <= #[trigger] offs[q].0 <= 2 && -2 <= offs[q].1 <= 2
}

/// Unit directions, not both zero.
pub open spec fn unit_dirs(dirs: Seq<(i32, i32)>) -> bool {
    forall|q: int|
        0 <= q < dirs.len() ==> -1 <= #[trigger] dirs[q].0 <= 1 && -1 <= dirs[q].1 <= 1 && (dirs[q].0
            != 0 || dirs[q].1 != 0)
}

impl Board {
    /// Adds the climbs along built ladders from `pos`.
    fn add_ladder_climbs(&self, pos: Pos, ladders: &Vec<Ladder>, moves: &mut Vec<ChessMove>)
        requires
            forall|l: Ladder| #[trigger] ladders@.contains(l) <==> self@.ladders.values().contains(l),
        ensures
            forall|m: ChessMove| #[trigger] final(moves)@.contains(m) <==> old(moves)@.contains(m)
                || ladder_climb(self@, pos, m),
    {
        let ghost start = moves@;
        let mut j: usize = 0;
        while j < ladders.len()
            invariant
                0 <= j <= ladders@.len(),
                forall|m: ChessMove| #[trigger] moves@.contains(m) <==> start.contains(m) || exists|q: int|
                    0 <= q < j && climb_via(self@, pos, ladders@[q], m),
            decreases ladders@.len() - j,
        {
            let l = ladders[j];
            let ghost before = moves@;
            if l.built {
                let target = if l.start == pos {
                    Some(l.end)
                } else if l.end == pos {
                    Some(l.start)
                } else {
                    None
                };
                match target {
                    Some(t) => {
                        match self.get(t) {
                            Tile::Empty => {
                                push_move(moves, ChessMove::between(pos, t));
                            },
                            _ => {},
                        }
                    },
                    None => {},
                }
            }
            assert forall|m: ChessMove| #[trigger] moves@.contains(m) <==> start.contains(m) || exists|q: int|
                0 <= q < j + 1 && climb_via(self@, pos, ladders@[q], m) by {
                if climb_via(self@, pos, ladders@[j as int], m) {
                    assert(moves@.contains(m));
                }
                if exists|q: int| 0 <= q < j + 1 && climb_via(self@, pos, ladders@[q], m) {
                    let q = choose|q: int| 0 <= q < j + 1 && climb_via(self@, pos, ladders@[q], m);
                    if q < j {
                        assert(before.contains(m));
                    }
                }
            }
            j = j + 1;
        }
        assert forall|m: ChessMove| #[trigger] moves@.contains(m) <==> start.contains(m) || ladder_climb(
            self@,
            pos,
            m,
        ) by {
            if exists|q: int| 0 <= q < ladders@.len() && climb_via(self@, pos, ladders@[q], m) {
                let q = choose|q: int| 0 <= q < ladders@.len() && climb_via(self@, pos, ladders@[q], m);
                assert(ladders@.contains(ladders@[q]));
                assert(self@.ladders.values().contains(ladders@[q]));
            }
            if ladder_climb(self@, pos, m) {
                let l = choose|l: Ladder|
                    #[trigger] self@.ladders.values().contains(l) && l.built && ladder_target(l, pos)
                        == Some(m.to) && tile_at(self@, m.to) == Tile::Empty;
                assert(ladders@.contains(l));
                let q = choose|q: int| 0 <= q < ladders@.len() && ladders@[q] == l;
                assert(climb_via(self@, pos, ladders@[q], m));
            }
        }
    }

    /// Adds the steps or jumps `offs` from `pos` for a piece of colour `c`.
    fn add_pattern(
        &self,
        pos: Pos,
        c: Color,
        offs: &Vec<(i32, i32)>,
        knight_rule: bool,
        moves: &mut Vec<ChessMove>,
    )
        requires
            in_board(pos),
            small_offsets(offs@),
        ensures
            forall|m: ChessMove| #[trigger] final(moves)@.contains(m) <==> old(moves)@.contains(m)
                || pattern_move(self@, pos, c, offs@, knight_rule, m),
    {
        let ghost start = moves@;
        let mut j: usize = 0;
        while j < offs.len()
            invariant
                0 <= j <= offs@.len(),
                in_board(pos),
                small_offsets(offs@),
                forall|m: ChessMove| #[trigger] moves@.contains(m) <==> start.contains(m) || exists|q: int|
                    0 <= q < j && pattern_hit(self@, pos, c, offs@, knight_rule, q, m),
            decreases offs@.len() - j,
        {
            let (dx, dy) = offs[j];
            assert(-2 <= offs@[j as int].0 <= 2 && -2 <= offs@[j as int].1 <= 2);
            let target = Pos { rank: pos.rank + dy, file: pos.file + dx };
            let lands_on = |x: Piece| -> (b: bool)
                ensures
                    b == (x.color != c || (knight_rule && x.kind == Kind::Rook)),
                { x.color != c || (knight_rule && x.kind == Kind::Rook) };
            let ok = self.get(target).is_empty_or(lands_on);
            let ghost before = moves@;
            if ok {
                push_move(moves, ChessMove::between(pos, target));
            }
            assert forall|m: ChessMove| #[trigger] moves@.contains(m) <==> start.contains(m) || exists|q: int|
                0 <= q < j + 1 && pattern_hit(self@, pos, c, offs@, knight_rule, q, m) by {
                if pattern_hit(self@, pos, c, offs@, knight_rule, j as int, m) {
                    assert(moves@.contains(m));
                }
                if exists|q: int| 0 <= q < j + 1 && pattern_hit(self@, pos, c, offs@, knight_rule, q, m) {
                    let q = choose|q: int|
                        0 <= q < j + 1 && pattern_hit(self@, pos, c, offs@, knight_rule, q, m);
                    if q < j {
                        assert(before.contains(m));
                    }
                }
            }
            j = j + 1;
        }
        assert forall|m: ChessMove| #[trigger] moves@.contains(m) <==> start.contains(m) || pattern_move(
            self@,
            pos,
            c,
            offs@,
            knight_rule,
            m,
        ) by {
            if pattern_move(self@, pos, c, offs@, knight_rule, m) {
                let q = choose|q: int|
                    0 <= q < offs@.len() && m == plain_move(
                        pos,
                        crate::rules::offset_target(pos, offs@[q]),
                    ) && lands(
                        tile_at(self@, crate::rules::offset_target(pos, #[trigger] offs@[q])),
                        c,
                        knight_rule,
                    );
                assert(pattern_hit(self@, pos, c, offs@, knight_rule, q, m));
            }
            if exists|q: int| 0 <= q < offs@.len() && pattern_hit(self@, pos, c, offs@, knight_rule, q, m) {
                let q = choose|q: int|
                    0 <= q < offs@.len() && pattern_hit(self@, pos, c, offs@, knight_rule, q, m);
                assert(0 <= q < offs@.len() && m == plain_move(
                    pos,
                    crate::rules::offset_target(pos, offs@[q]),
                ) && lands(
                    tile_at(self@, crate::rules::offset_target(pos, offs@[q])),
                    c,
                    knight_rule,
                ));
            }
        }
    }

    /// Adds the squares that a piece of colour `c` on `pos` reaches sliding
    /// in direction (dr, df).
    fn add_ray(&self, pos: Pos, c: Color, dr: i32, df: i32, moves: &mut Vec<ChessMove>)
        requires
            well_formed(self@),
            in_board(pos),
            -1 <= dr <= 1,
            -1 <= df <= 1,
            dr != 0 || df != 0,
        ensures
            forall|m: ChessMove| #[trigger] final(moves)@.contains(m) <==> old(moves)@.contains(m) || (m
                == plain_move(pos, m.to) && ray(self@, c, pos.rank as int, pos.file as int, dr as int, df as int, m.to)),
    {
        let ghost start = moves@;
        let mut r = pos.rank;
        let mut f = pos.file;
        let mut go = true;
        while go
            invariant
                on_board(r as int, f as int),
                -1 <= dr <= 1,
                -1 <= df <= 1,
                dr != 0 || df != 0,
                forall|m: ChessMove|
                    (start.contains(m) || (m == plain_move(pos, m.to) && ray(
                        self@,
                        c,
                        pos.rank as int,
                        pos.file as int,
                        dr as int,
                        df as int,
                        m.to,
                    ))) <==> (#[trigger] moves@.contains(m) || (go && m == plain_move(pos, m.to) && ray(
                        self@,
                        c,
                        r as int,
                        f as int,
                        dr as int,
                        df as int,
                        m.to,
                    ))),
            decreases ray_room(r as int, f as int, dr as int, df as int) + (if go { 1int } else { 0int }),
        {
            let nr = r + dr;
            let nf = f + df;
            let ghost before = moves@;
            if 0 <= nr && nr < 8 && 0 <= nf && nf < 8 {
                let t = Pos { rank: nr, file: nf };
                let enemy = |x: Piece| -> (b: bool)
                    ensures
                        b == (x.color != c),
                    { x.color != c };
                let ok = self.get(t).is_empty_or(enemy);
                if ok {
                    push_move(moves, ChessMove::between(pos, t));
                    assert forall|m: ChessMove|
                        (before.contains(m) || (m == plain_move(pos, m.to) && ray(
                            self@,
                            c,
                            r as int,
                            f as int,
                            dr as int,
                            df as int,
                            m.to,
                        ))) <==> (#[trigger] moves@.contains(m) || (m == plain_move(pos, m.to) && ray(
                            self@,
                            c,
                            nr as int,
                            nf as int,
                            dr as int,
                            df as int,
                            m.to,
                        ))) by {
                        if m == plain_move(pos, t) {
                            assert(moves@.contains(m));
                        }
                    }
                    r = nr;
                    f = nf;
                } else {
                    assert forall|t: Pos| !ray(self@, c, r as int, f as int, dr as int, df as int, t) by {
                        assert(!open_for(tile(self@, nr as int, nf as int), c));
                    }
                    go = false;
                }
            } else {
                assert forall|t: Pos| !ray(self@, c, r as int, f as int, dr as int, df as int, t) by {
                    assert(!on_board(nr as int, nf as int));
                }
                go = false;
            }
        }
    }

    /// Adds the slides from `pos` in the directions `dirs`.
    fn add_slides(&self, pos: Pos, c: Color, dirs: &Vec<(i32, i32)>, moves: &mut Vec<ChessMove>)
        requires
            well_formed(self@),
            in_board(pos),
            unit_dirs(dirs@),
        ensures
            forall|m: ChessMove| #[trigger] final(moves)@.contains(m) <==> old(moves)@.contains(m)
                || slide_move(self@, pos, c, dirs@, m),
    {
        let ghost start = moves@;
        let mut j: usize = 0;
        while j < dirs.len()
            invariant
                0 <= j <= dirs@.len(),
                well_formed(self@),
                in_board(pos),
                unit_dirs(dirs@),
                forall|m: ChessMove| #[trigger] moves@.contains(m) <==> start.contains(m) || (m
                    == plain_move(pos, m.to) && exists|q: int|
                    0 <= q < j && ray(
                        self@,
                        c,
                        pos.rank as int,
                        pos.file as int,
                        (#[trigger] dirs@[q]).1 as int,
                        dirs@[q].0 as int,
                        m.to,
                    )),
            decreases dirs@.len() - j,
        {
            let (dx, dy) = dirs[j];
            assert(-1 <= dirs@[j as int].0 <= 1);
            let ghost before = moves@;
            self.add_ray(pos, c, dy, dx, moves);
            assert forall|m: ChessMove| #[trigger] moves@.contains(m) <==> start.contains(m) || (m
                == plain_move(pos, m.to) && exists|q: int|
                0 <= q < j + 1 && ray(
                    self@,
                    c,
                    pos.rank as int,
                    pos.file as int,
                    (#[trigger] dirs@[q]).1 as int,
                    dirs@[q].0 as int,
                    m.to,
                )) by {
                if m == plain_move(pos, m.to) && exists|q: int|
                    0 <= q < j + 1 && ray(
                        self@,
                        c,
                        pos.rank as int,
                        pos.file as int,
                        (#[trigger] dirs@[q]).1 as int,
                        dirs@[q].0 as int,
                        m.to,
                    ) {
                    let q = choose|q: int|
                        0 <= q < j + 1 && ray(
                            self@,
                            c,
                            pos.rank as int,
                            pos.file as int,
                            (#[trigger] dirs@[q]).1 as int,
                            dirs@[q].0 as int,
                            m.to,
                        );
                    if q < j {
                        assert(before.contains(m));
                    }
                }
            }
            j = j + 1;
        }
    }
}

/// The moves a board offers, the forced ones among them, and whether some
/// pawn may take en passant.
struct MoveSet {
    moves: Vec<ChessMove>,
    forced: Vec<ChessMove>,
    en_passant: bool,
}

/// A move of a pawn on `pos` onto `t`, promoting on its last rank.
pub open spec fn pawn_candidate(pos: Pos, p: Piece, t: Pos, m: ChessMove) -> bool {
    &&& m.from == pos
    &&& m.to == t
    &&& m.direction is None
    &&& !m.use_ladder
    &&& if t.rank == last_rank(p.color) {
        m.promotion matches Some(k) && promotion_kind(k)
    } else {
        m.promotion is None
    }
}

/// Whether the move is forced, for a pawn advance.
pub open spec fn forcing(v: BoardView, deep: bool, m: ChessMove) -> bool {
    tile_at(v, m.to) == Tile::EnPassant || (deep && en_passant_open(after(v, m)))
}

/// The candidate moves of a pawn on `pos` onto `t`.
fn pawn_candidates(pos: Pos, p: Piece, t: Pos) -> (r: Vec<ChessMove>)
    ensures
        forall|m: ChessMove| #[trigger] r@.contains(m) <==> pawn_candidate(pos, p, t, m),
{
    let last: i32 = match p.color {
        Color::White => 7,
        Color::Black => 0,
    };
    let mut r: Vec<ChessMove> = Vec::new();
    if t.rank == last {
        push_move(&mut r, ChessMove::between(pos, t).promote(Kind::Rook));
        push_move(&mut r, ChessMove::between(pos, t).promote(Kind::Knight));
        push_move(&mut r, ChessMove::between(pos, t).promote(Kind::Bishop));
        push_move(&mut r, ChessMove::between(pos, t).promote(Kind::Queen));
        push_move(&mut r, ChessMove::between(pos, t).promote(Kind::King));
    } else {
        push_move(&mut r, ChessMove::between(pos, t));
    }
    r
}

/// Whether a list of moves holds a move.
fn holds_move(moves: &Vec<ChessMove>, mv: &ChessMove) -> (r: bool)
    ensures
        r == moves@.contains(*mv),
{
    let mut j: usize = 0;
    while j < moves.len()
        invariant
            0 <= j <= moves@.len(),
            forall|q: int| 0 <= q < j ==> moves@[q] != *mv,
        decreases moves@.len() - j,
    {
        if moves[j] == *mv {
            return true;
        }
        j = j + 1;
    }
    false
}

proof fn lemma_piece_move_from(v: BoardView, pos: Pos, p: Piece, m: ChessMove)
    requires
        piece_move(v, pos, p, m),
    ensures
        m.from == pos,
{
    if !ladder_climb(v, pos, m) {
        match p.kind {
            Kind::King => {
                let q = choose|q: int| 0 <= q < king_offsets().len() && m == plain_move(pos, crate::rules::offset_target(pos, king_offsets()[q])) && lands(tile_at(v, crate::rules::offset_target(pos, #[trigger] king_offsets()[q])), p.color, false);
            },
            Kind::Knight => {
                if pattern_move(v, pos, p.color, knight_offsets(), true, m) {
                    let q = choose|q: int| 0 <= q < knight_offsets().len() && m == plain_move(pos, crate::rules::offset_target(pos, knight_offsets()[q])) && lands(tile_at(v, crate::rules::offset_target(pos, #[trigger] knight_offsets()[q])), p.color, true);
                }
            },
            Kind::Knook => {
                if pattern_move(v, pos, p.color, knight_offsets(), false, m) {
                    let q = choose|q: int| 0 <= q < knight_offsets().len() && m == plain_move(pos, crate::rules::offset_target(pos, knight_offsets()[q])) && lands(tile_at(v, crate::rules::offset_target(pos, #[trigger] knight_offsets()[q])), p.color, false);
                }
            },
            _ => {},
        }
    }
}

impl Board {
    /// Adds the moves of a pawn onto the target `t`: to the moves, to the
    /// forced moves when forced, and notes a take en passant.
    fn add_pawn_target(
        &self,
        pos: Pos,
        p: Piece,
        t: Pos,
        deep: bool,
        ms: &mut MoveSet,
    )
        requires
            well_formed(self@),
            in_board(pos),
            piece_at(self@, pos) == Some(p),
            p.kind == Kind::Pawn,
            !stopped(self@),
            may_move(self@, p),
            pawn_target(self@, pos, p, t),
            deep ==> lookahead_safe(self@),
        ensures
            forall|m: ChessMove| #[trigger] final(ms).moves@.contains(m) <==> old(ms).moves@.contains(m)
                || pawn_candidate(pos, p, t, m),
            forall|m: ChessMove| #[trigger] final(ms).forced@.contains(m) <==> old(ms).forced@.contains(m)
                || (pawn_candidate(pos, p, t, m) && forcing(self@, deep, m)),
            final(ms).en_passant == (old(ms).en_passant || tile_at(self@, t) == Tile::EnPassant),
        decreases (if deep { 1int } else { 0int }), 0int,
    {
        let cands = pawn_candidates(pos, p, t);
        let ghost m0 = ms.moves@;
        let ghost f0 = ms.forced@;
        let ghost e0 = ms.en_passant;
        let is_ep = match self.get(t) {
            Tile::EnPassant => true,
            _ => false,
        };
        assert(cands@.len() > 0) by {
            let c0 = if t.rank == last_rank(p.color) {
                ChessMove { from: pos, to: t, direction: None, promotion: Some(Kind::Queen), use_ladder: false }
            } else {
                plain_move(pos, t)
            };
            assert(pawn_candidate(pos, p, t, c0));
            assert(cands@.contains(c0));
        }
        let mut j: usize = 0;
        while j < cands.len()
            invariant
                0 <= j <= cands@.len(),
                cands@.len() > 0,
                forall|m: ChessMove| #[trigger] cands@.contains(m) <==> pawn_candidate(pos, p, t, m),
                well_formed(self@),
                in_board(pos),
                piece_at(self@, pos) == Some(p),
                p.kind == Kind::Pawn,
                !stopped(self@),
                may_move(self@, p),
                pawn_target(self@, pos, p, t),
                deep ==> lookahead_safe(self@),
                is_ep == (tile_at(self@, t) == Tile::EnPassant),
                forall|m: ChessMove| #[trigger] ms.moves@.contains(m) <==> m0.contains(m) || exists|q: int| 0 <= q < j && cands@[q] == m,
                forall|m: ChessMove| #[trigger] ms.forced@.contains(m) <==> f0.contains(m) || exists|q: int| 0 <= q < j && cands@[q] == m && forcing(self@, deep, m),
                ms.en_passant == (e0 || (j > 0 && is_ep)),
            decreases cands@.len() - j,
        {
            let mv = cands[j];
            assert(cands@.contains(mv));
            let ghost mb = ms.moves@;
            let ghost fb = ms.forced@;
            push_move(&mut ms.moves, mv);
            if is_ep {
                push_move(&mut ms.forced, mv);
                ms.en_passant = true;
            }
            if deep {
                assert(offered_advance(self@, mv)) by {
                    assert(mover(self@, mv) == Some(p));
                }
                assert(playable(self@, mv));
                assert(mv.from != mv.to);
                let mut b2 = self.clone();
                mv.exec(&mut b2);
                let ms2 = b2.get_moves(false);
                if ms2.en_passant {
                    push_move(&mut ms.forced, mv);
                }
            }
            assert forall|m: ChessMove| #[trigger] ms.moves@.contains(m) <==> m0.contains(m) || exists|q: int| 0 <= q < j + 1 && cands@[q] == m by {
                if exists|q: int| 0 <= q < j + 1 && cands@[q] == m {
                    let q = choose|q: int| 0 <= q < j + 1 && cands@[q] == m;
                    if q < j {
                        assert(mb.contains(m));
                    }
                }
            }
            assert forall|m: ChessMove| #[trigger] ms.forced@.contains(m) <==> f0.contains(m) || exists|q: int| 0 <= q < j + 1 && cands@[q] == m && forcing(self@, deep, m) by {
                if exists|q: int| 0 <= q < j + 1 && cands@[q] == m && forcing(self@, deep, m) {
                    let q = choose|q: int| 0 <= q < j + 1 && cands@[q] == m && forcing(self@, deep, m);
                    if q < j {
                        assert(fb.contains(m));
                    }
                }
            }
            j = j + 1;
        }
        assert forall|m: ChessMove| #[trigger] ms.moves@.contains(m) <==> m0.contains(m) || pawn_candidate(pos, p, t, m) by {
            if pawn_candidate(pos, p, t, m) {
                assert(cands@.contains(m));
            }
            if exists|q: int| 0 <= q < cands@.len() && cands@[q] == m {
                let q = choose|q: int| 0 <= q < cands@.len() && cands@[q] == m;
                assert(cands@.contains(m));
            }
        }
        assert forall|m: ChessMove| #[trigger] ms.forced@.contains(m) <==> f0.contains(m) || (pawn_candidate(pos, p, t, m) && forcing(self@, deep, m)) by {
            if pawn_candidate(pos, p, t, m) {
                assert(cands@.contains(m));
            }
            if exists|q: int| 0 <= q < cands@.len() && cands@[q] == m && forcing(self@, deep, m) {
                let q = choose|q: int| 0 <= q < cands@.len() && cands@[q] == m && forcing(self@, deep, m);
                assert(cands@.contains(m));
            }
        }
    }

    /// Adds the moves of the pawn `p` on `pos`.
    #[verifier::spinoff_prover]
    #[verifier::rlimit(60)]
    fn add_pawn_moves(&self, pos: Pos, p: Piece, deep: bool, ms: &mut MoveSet)
        requires
            well_formed(self@),
            in_board(pos),
            piece_at(self@, pos) == Some(p),
            p.kind == Kind::Pawn,
            !stopped(self@),
            may_move(self@, p),
            deep ==> lookahead_safe(self@),
        ensures
            forall|m: ChessMove| #[trigger] final(ms).moves@.contains(m) <==> old(ms).moves@.contains(m)
                || pawn_move(self@, pos, p, m),
            forall|m: ChessMove| #[trigger] final(ms).forced@.contains(m) <==> old(ms).forced@.contains(m)
                || (pawn_advance(self@, pos, p, m) && forcing(self@, deep, m)),
            final(ms).en_passant == (old(ms).en_passant || exists|m: ChessMove|
                #[trigger] pawn_advance(self@, pos, p, m) && tile_at(self@, m.to) == Tile::EnPassant),
        decreases (if deep { 1int } else { 0int }), 1int,
    {
        let ghost v = self@;
        let ghost m0 = ms.moves@;
        let ghost f0 = ms.forced@;
        let ghost e0 = ms.en_passant;
        let d = p.direction;
        let f1 = pos + Pos { rank: 1, file: 0 } * d;
        let f2 = pos + Pos { rank: 2, file: 0 } * d;
        let cl = pos + Pos { rank: 1, file: -1 } * d;
        let cr = pos + Pos { rank: 1, file: 1 } * d;
        assert(f1 == ahead(pos, 1, 0, d));
        assert(f2 == ahead(pos, 2, 0, d));
        assert(cl == ahead(pos, 1, -1i32, d));
        assert(cr == ahead(pos, 1, 1, d));
        let can1 = self.get(f1).is_empty();
        let take2 = can1 && !p.moved && self.get(f2).is_empty();
        let takel = self.get(cl).is_pawn_takeable(p.color);
        let taker = self.get(cr).is_pawn_takeable(p.color);
        if can1 {
            self.add_pawn_target(pos, p, f1, deep, ms);
        }
        let ghost ma = ms.moves@;
        let ghost fa = ms.forced@;
        let ghost ea = ms.en_passant;
        if take2 {
            self.add_pawn_target(pos, p, f2, deep, ms);
        }
        let ghost mb = ms.moves@;
        let ghost fb = ms.forced@;
        let ghost eb = ms.en_passant;
        if takel {
            self.add_pawn_target(pos, p, cl, deep, ms);
        }
        let ghost mc = ms.moves@;
        let ghost fc = ms.forced@;
        let ghost ec = ms.en_passant;
        if taker {
            self.add_pawn_target(pos, p, cr, deep, ms);
        }
        let ghost md = ms.moves@;
        let ghost fd = ms.forced@;
        assert forall|m: ChessMove| #[trigger] md.contains(m) <==> m0.contains(m) || pawn_advance(v, pos, p, m) by {
            if pawn_advance(v, pos, p, m) {
                assert(pawn_target(v, pos, p, m.to));
                assert(pawn_candidate(pos, p, m.to, m));
            }
            if md.contains(m) && !m0.contains(m) {
                assert(pawn_target(v, pos, p, m.to));
            }
        }
        assert forall|m: ChessMove| #[trigger] fd.contains(m) <==> f0.contains(m) || (pawn_advance(v, pos, p, m) && forcing(v, deep, m)) by {
            if pawn_advance(v, pos, p, m) {
                assert(pawn_target(v, pos, p, m.to));
                assert(pawn_candidate(pos, p, m.to, m));
            }
            if fd.contains(m) && !f0.contains(m) {
                assert(pawn_target(v, pos, p, m.to));
            }
        }
        assert(ms.en_passant == (e0 || exists|m: ChessMove| #[trigger] pawn_advance(v, pos, p, m) && tile_at(v, m.to) == Tile::EnPassant)) by {
            if exists|m: ChessMove| #[trigger] pawn_advance(v, pos, p, m) && tile_at(v, m.to) == Tile::EnPassant {
                let m = choose|m: ChessMove| #[trigger] pawn_advance(v, pos, p, m) && tile_at(v, m.to) == Tile::EnPassant;
                assert(pawn_target(v, pos, p, m.to));
            }
            let ghost wit = |t: Pos| if t.rank == last_rank(p.color) {
                ChessMove { from: pos, to: t, direction: None, promotion: Some(Kind::Queen), use_ladder: false }
            } else {
                plain_move(pos, t)
            };
            if can1 && tile_at(v, f1) == Tile::EnPassant {
                assert(pawn_advance(v, pos, p, wit(f1)));
            }
            if take2 && tile_at(v, f2) == Tile::EnPassant {
                assert(pawn_advance(v, pos, p, wit(f2)));
            }
            if takel && tile_at(v, cl) == Tile::EnPassant {
                assert(pawn_advance(v, pos, p, wit(cl)));
            }
            if taker && tile_at(v, cr) == Tile::EnPassant {
                assert(pawn_advance(v, pos, p, wit(cr)));
            }
        }
        push_move(&mut ms.moves, ChessMove::rotate_at(pos, d.left()));
        push_move(&mut ms.moves, ChessMove::rotate_at(pos, d.right()));
    }

    /// Adds the moves of the piece `p` on `pos`.
    fn add_piece_moves(
        &self,
        pos: Pos,
        p: Piece,
        deep: bool,
        offsets: &(Vec<(i32, i32)>, Vec<(i32, i32)>, Vec<(i32, i32)>, Vec<(i32, i32)>),
        ladders: &Vec<Ladder>,
        ms: &mut MoveSet,
    )
        requires
            well_formed(self@),
            in_board(pos),
            piece_at(self@, pos) == Some(p),
            !stopped(self@),
            may_move(self@, p),
            deep ==> lookahead_safe(self@),
            offsets.0@ == king_offsets(),
            offsets.1@ == knight_offsets(),
            offsets.2@ == bishop_dirs(),
            offsets.3@ == rook_dirs(),
            forall|l: Ladder| #[trigger] ladders@.contains(l) <==> self@.ladders.values().contains(l),
        ensures
            forall|m: ChessMove| #[trigger] final(ms).moves@.contains(m) <==> old(ms).moves@.contains(m)
                || piece_move(self@, pos, p, m),
            forall|m: ChessMove| #[trigger] final(ms).forced@.contains(m) <==> old(ms).forced@.contains(m)
                || (p.kind == Kind::Pawn && pawn_advance(self@, pos, p, m) && forcing(self@, deep, m)),
            final(ms).en_passant == (old(ms).en_passant || (p.kind == Kind::Pawn && exists|m: ChessMove|
                #[trigger] pawn_advance(self@, pos, p, m) && tile_at(self@, m.to) == Tile::EnPassant)),
        decreases (if deep { 1int } else { 0int }), 2int,
    {
        let ghost m0 = ms.moves@;
        self.add_ladder_climbs(pos, ladders, &mut ms.moves);
        let ghost m1 = ms.moves@;
        assert(small_offsets(king_offsets()));
        assert(small_offsets(knight_offsets()));
        assert(unit_dirs(king_offsets()));
        assert(unit_dirs(bishop_dirs()));
        assert(unit_dirs(rook_dirs()));
        match p.kind {
            Kind::King => {
                self.add_pattern(pos, p.color, &offsets.0, false, &mut ms.moves);
            },
            Kind::Bishop => {
                self.add_slides(pos, p.color, &offsets.2, &mut ms.moves);
            },
            Kind::Rook => {
                self.add_slides(pos, p.color, &offsets.3, &mut ms.moves);
            },
            Kind::Queen => {
                self.add_slides(pos, p.color, &offsets.0, &mut ms.moves);
            },
            Kind::Knight => {
                self.add_pattern(pos, p.color, &offsets.1, true, &mut ms.moves);
                let ghost m2 = ms.moves@;
                match p.ladder {
                    LadderState::Unused => {
                        push_move(&mut ms.moves, ChessMove::ladder_at(pos));
                    },
                    _ => {},
                }
            },
            Kind::Knook => {
                self.add_slides(pos, p.color, &offsets.3, &mut ms.moves);
                self.add_pattern(pos, p.color, &offsets.1, false, &mut ms.moves);
            },
            Kind::Pawn => {
                self.add_pawn_moves(pos, p, deep, ms);
            },
        }
    }

    /// The moves that the board offers.
    #[verifier::spinoff_prover]
    #[verifier::rlimit(80)]
    fn get_moves(&self, deep: bool) -> (r: MoveSet)
        requires
            well_formed(self@),
            deep ==> lookahead_safe(self@),
        ensures
            forall|m: ChessMove| #[trigger] r.moves@.contains(m) <==> generates(self@, m),
            forall|m: ChessMove| #[trigger] r.forced@.contains(m) <==> forced(self@, deep, m),
            r.en_passant == en_passant_open(self@),
        decreases (if deep { 1int } else { 0int }), 3int,
    {
        let ghost v = self@;
        let rules = self.rules();
        let turn = self.turn();
        if !rules.move_after_win && self.victory().is_some() {
            return MoveSet { moves: Vec::new(), forced: Vec::new(), en_passant: false };
        }
        let ladders = self.ladder_list();
        let king: Vec<(i32, i32)> = vec![(-1, -1), (-1, 0), (-1, 1), (0, -1), (0, 1), (1, -1), (1, 0), (1, 1)];
        let knight: Vec<(i32, i32)> = vec![(-1, -2), (-1, 2), (1, -2), (1, 2), (2, -1), (2, 1), (-2, -1), (-2, 1)];
        let bishop: Vec<(i32, i32)> = vec![(1, 1), (1, -1), (-1, -1), (-1, 1)];
        let rook: Vec<(i32, i32)> = vec![(1, 0), (-1, 0), (0, -1), (0, 1)];
        assert(king@ =~= king_offsets());
        assert(knight@ =~= knight_offsets());
        assert(bishop@ =~= bishop_dirs());
        assert(rook@ =~= rook_dirs());
        let offsets = (king, knight, bishop, rook);
        let mut ms = MoveSet { moves: Vec::new(), forced: Vec::new(), en_passant: false };
        let mut i: i32 = 0;
        while i < 64
            invariant
                0 <= i <= 64,
                v == self@,
                well_formed(v),
                !stopped(v),
                rules == v.rules,
                turn == v.turn,
                deep ==> lookahead_safe(v),
                offsets.0@ == king_offsets(),
                offsets.1@ == knight_offsets(),
                offsets.2@ == bishop_dirs(),
                offsets.3@ == rook_dirs(),
                forall|l: Ladder| #[trigger] ladders@.contains(l) <==> v.ladders.values().contains(l),
                forall|m: ChessMove| #[trigger] ms.moves@.contains(m) <==> (generates(v, m) && sq(m.from) < i),
                forall|m: ChessMove| #[trigger] ms.forced@.contains(m) <==> (forced(v, deep, m) && sq(m.from) < i),
                ms.en_passant == exists|m: ChessMove| #[trigger] offered_advance(v, m) && tile_at(v, m.to)
                    == Tile::EnPassant && sq(m.from) < i,
            decreases 64 - i,
        {
            let pos = Pos { rank: i / 8, file: i % 8 };
            assert(in_board(pos) && sq(pos) == i);
            let ghost mb = ms.moves@;
            let ghost fb = ms.forced@;
            let ghost eb = ms.en_passant;
            match self.at(pos) {
                Some(piece) => {
                    if !rules.move_order || piece.color == turn {
                        self.add_piece_moves(pos, piece, deep, &offsets, &ladders, &mut ms);
                    }
                },
                None => {},
            }
            proof {
                assert forall|m: ChessMove| #[trigger] ms.moves@.contains(m) <==> (generates(v, m) && sq(m.from) < i + 1) by {
                    if generates(v, m) && sq(m.from) == i {
                        assert(m.from == pos);
                    }
                    if ms.moves@.contains(m) && !mb.contains(m) {
                        let p = piece_at(v, pos)->0;
                        lemma_piece_move_from(v, pos, p, m);
                    }
                }
                assert forall|m: ChessMove| #[trigger] ms.forced@.contains(m) <==> (forced(v, deep, m) && sq(m.from) < i + 1) by {
                    if forced(v, deep, m) && sq(m.from) == i {
                        assert(m.from == pos);
                    }
                }
                assert(ms.en_passant == exists|m: ChessMove| #[trigger] offered_advance(v, m) && tile_at(v, m.to)
                    == Tile::EnPassant && sq(m.from) < i + 1) by {
                    if exists|m: ChessMove| #[trigger] offered_advance(v, m) && tile_at(v, m.to)
                        == Tile::EnPassant && sq(m.from) < i + 1 {
                        let m = choose|m: ChessMove| #[trigger] offered_advance(v, m) && tile_at(v, m.to)
                            == Tile::EnPassant && sq(m.from) < i + 1;
                        if sq(m.from) == i {
                            assert(m.from == pos);
                        }
                    }
                    if ms.en_passant && !eb {
                        let p = piece_at(v, pos)->0;
                        let m = choose|m: ChessMove| #[trigger] pawn_advance(v, pos, p, m) && tile_at(v, m.to) == Tile::EnPassant;
                        assert(offered_advance(v, m));
                    }
                }
            }
            i = i + 1;
        }
        proof {
            assert forall|m: ChessMove| #[trigger] ms.moves@.contains(m) <==> generates(v, m) by {
                if generates(v, m) {
                    assert(sq(m.from) < 64);
                }
            }
            assert forall|m: ChessMove| #[trigger] ms.forced@.contains(m) <==> forced(v, deep, m) by {
                if forced(v, deep, m) {
                    assert(sq(m.from) < 64);
                }
            }
        }
        ms
    }
}

/// Why a move is refused.
#[derive(Debug, Clone, Copy, PartialEq, Eq, Structural)]
pub enum ChessError {
    Invalid,
}

impl ChessMove {
    /// Accepts the move if the board offers it and, when some move is
    /// forced, it is a forced one.
    pub fn check(&self, state: &Board) -> (r: Result<(), ChessError>)
        requires
            well_formed(state@),
            lookahead_safe(state@),
        ensures
            r is Ok <==> legal(state@, *self),
            r is Err ==> r == Err::<(), ChessError>(ChessError::Invalid),
    {
        let moves = state.get_moves(true);
        proof {
            if moves.forced@.len() != 0 {
                assert(moves.forced@.contains(moves.forced@[0]));
                assert(forced(state@, true, moves.forced@[0]));
            } else {
                assert forall|m: ChessMove| !forced(state@, true, m) by {
                    assert(!moves.forced@.contains(m));
                }
            }
        }
        if holds_move(&moves.moves, self) && (moves.forced.len() == 0 || holds_move(&moves.forced, self)) {
            Ok(())
        } else {
            proof {
                if moves.forced@.len() != 0 {
                    assert(moves.forced@.contains(moves.forced@[0]));
                }
            }
            Err(ChessError::Invalid)
        }
    }
}

impl Board {
    /// Whether looking one move ahead, as the legality check does, panics on
    /// no pawn advance (see `lookahead_safe`).
    pub fn can_look_ahead(&self) -> (r: bool)
        requires
            well_formed(self@),
        ensures
            r == lookahead_safe(self@),
    {
        let ms = self.get_moves(false);
        let mut j: usize = 0;
        while j < ms.moves.len()
            invariant
                0 <= j <= ms.moves@.len(),
                well_formed(self@),
                forall|m: ChessMove| #[trigger] ms.moves@.contains(m) <==> generates(self@, m),
                forall|q: int| 0 <= q < j && offered_advance(self@, #[trigger] ms.moves@[q]) ==> playable(self@, ms.moves@[q]),
            decreases ms.moves@.len() - j,
        {
            let m = ms.moves[j];
            assert(ms.moves@.contains(m));
            let pawn_from = match self.at(m.from) {
                Some(p) => p.kind == Kind::Pawn,
                None => false,
            };
            if pawn_from && m.from != m.to && !self.is_playable(&m) {
                proof {
                    assert(ms.moves@.contains(m));
                    let p = piece_at(self@, m.from)->0;
                    assert(mover(self@, m) == Some(p));
                    if ladder_climb(self@, m.from, m) {
                        assert(playable(self@, m));
                    }
                    assert(pawn_move(self@, m.from, p, m));
                    assert(offered_advance(self@, m));
                }
                return false;
            }
            proof {
                if offered_advance(self@, m) {
                    assert(generates(self@, m));
                    assert(m.from != m.to);
                }
            }
            j = j + 1;
        }
        proof {
            assert forall|m: ChessMove| #[trigger] offered_advance(self@, m) implies playable(self@, m) by {
                assert(generates(self@, m));
                assert(ms.moves@.contains(m));
                let q = choose|q: int| 0 <= q < ms.moves@.len() && ms.moves@[q] == m;
            }
        }
        true
    }
}

} // verus!
