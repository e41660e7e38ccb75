//! Moves, as the client sends them and the board checks and plays them.

use vstd::prelude::*;
use vstd::std_specs::convert::IntoSpec;
use crate::piece::{Direction, Kind, Pos};

verus! {

/// A move: a piece goes from one square to another (or stays to turn or to
/// start a ladder), possibly promoted.
#[derive(Debug, Clone, Copy, PartialEq, Eq, Hash, Structural)]
pub struct ChessMove {
    pub from: Pos,
    pub to: Pos,
    pub direction: Option<Direction>,
    pub promotion: Option<Kind>,
    pub use_ladder: bool,
}

/// A move from one square to another that neither promotes, turns nor
/// starts a ladder.
pub open spec fn plain_move(from: Pos, to: Pos) -> ChessMove {
    ChessMove { from, to, direction: None, promotion: None, use_ladder: false }
}

/// A move that leaves the piece on its square and turns it to face `dir`.
pub open spec fn rotation_move(at: Pos, dir: Direction) -> ChessMove {
    ChessMove { from: at, to: at, direction: Some(dir), promotion: None, use_ladder: false }
}

/// A move that leaves the piece on its square and starts a ladder there.
pub open spec fn ladder_move(at: Pos) -> ChessMove {
    ChessMove { from: at, to: at, direction: None, promotion: None, use_ladder: true }
}

impl ChessMove {
    /// A plain move between two squares.
    pub fn new<F: Into<Pos>, T: Into<Pos>>(from: F, to: T) -> (r: ChessMove)
        ensures
            F::obeys_into_spec() ==> r.from == from.into_spec(),
            T::obeys_into_spec() ==> r.to == to.into_spec(),
            r.direction is None,
            r.promotion is None,
            !r.use_ladder,
    {
        ChessMove {
            from: from.into(),
            to: to.into(),
            promotion: None,
            direction: None,
            use_ladder: false,
        }
    }

    /// A plain move between two squares given as positions.
    pub fn between(from: Pos, to: Pos) -> (r: ChessMove)
        ensures
            r == plain_move(from, to),
    {
        ChessMove { from, to, promotion: None, direction: None, use_ladder: false }
    }

    /// The same move, promoting to `kind`.
    pub fn promote(self, kind: Kind) -> (r: ChessMove)
        ensures
            r == (ChessMove { promotion: Some(kind), ..self }),
    {
        let mut m = self;
        m.promotion = Some(kind);
        m
    }

    /// The move that starts a ladder on the square `at`.
    pub fn ladder<A: Into<Pos>>(at: A) -> (r: ChessMove)
        ensures
            A::obeys_into_spec() ==> r == ladder_move(at.into_spec()),
            r.from == r.to,
            r.direction is None,
            r.promotion is None,
            r.use_ladder,
    {
        let at = at.into();
        ChessMove { from: at, to: at, direction: None, promotion: None, use_ladder: true }
    }

    /// The move that turns the piece on `at` to face `dir`.
    pub fn rotate<A: Into<Pos>>(at: A, dir: Direction) -> (r: ChessMove)
        ensures
            A::obeys_into_spec() ==> r == rotation_move(at.into_spec(), dir),
            r.from == r.to,
            r.direction == Some(dir),
            r.promotion is None,
            !r.use_ladder,
    {
        let at = at.into();
        ChessMove { from: at, to: at, direction: Some(dir), promotion: None, use_ladder: false }
    }

    /// `rotate` for a square given as a position.
    pub fn rotate_at(at: Pos, dir: Direction) -> (r: ChessMove)
        ensures
            r == rotation_move(at, dir),
    {
        ChessMove { from: at, to: at, direction: Some(dir), promotion: None, use_ladder: false }
    }

    /// `ladder` for a square given as a position.
    pub fn ladder_at(at: Pos) -> (r: ChessMove)
        ensures
            r == ladder_move(at),
    {
        ChessMove { from: at, to: at, direction: None, promotion: None, use_ladder: true }
    }
}

} // verus!
