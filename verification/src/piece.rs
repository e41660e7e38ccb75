//! Pieces, colours, directions and board coordinates.

use vstd::prelude::*;
use vstd::std_specs::convert::FromSpecImpl;
use vstd::std_specs::ops::{AddSpecImpl, MulSpecImpl, NotSpecImpl};
use core::ops::{Add, Mul, Not};

verus! {

/// The kind of a piece.
#[derive(Debug, Clone, Copy, PartialEq, Eq, Hash, Structural)]
pub enum Kind {
    Pawn,
    Rook,
    Knight,
    Bishop,
    King,
    Queen,
    Knook,
}

impl Kind {
    /// Returns `true` if the kind is `Pawn`.
    pub fn is_pawn(&self) -> (r: bool)
        ensures
            r == (*self == Kind::Pawn),
    {
        matches!(self, Kind::Pawn)
    }
}

/// The colour of a side.
#[derive(Debug, Clone, Copy, PartialEq, Eq, Default, Structural)]
pub enum Color {
    #[default]
    White,
    Black,
}

/// The other colour.
pub open spec fn opponent(c: Color) -> Color {
    match c {
        Color::White => Color::Black,
        Color::Black => Color::White,
    }
}

impl Color {
    /// Returns `true` if the colour is `White`.
    pub fn is_white(&self) -> (r: bool)
        ensures
            r == (*self == Color::White),
    {
        matches!(self, Color::White)
    }
}

impl Not for Color {
    type Output = Color;

    fn not(self) -> (r: Color)
        ensures
            r == opponent(self),
    {
        match self {
            Color::White => Color::Black,
            Color::Black => Color::White,
        }
    }
}

impl NotSpecImpl for Color {
    open spec fn obeys_not_spec() -> bool {
        true
    }

    open spec fn not_req(self) -> bool {
        true
    }

    open spec fn not_spec(self) -> Color {
        opponent(self)
    }
}

/// The way a piece faces.
#[derive(Debug, Clone, Copy, PartialEq, Eq, Hash, Structural)]
pub enum Direction {
    Up,
    Left,
    Right,
    Down,
}

/// A quarter turn counter-clockwise.
pub open spec fn turn_left(d: Direction) -> Direction {
    match d {
        Direction::Up => Direction::Left,
        Direction::Left => Direction::Down,
        Direction::Right => Direction::Up,
        Direction::Down => Direction::Right,
    }
}

/// A quarter turn clockwise.
pub open spec fn turn_right(d: Direction) -> Direction {
    match d {
        Direction::Up => Direction::Right,
        Direction::Left => Direction::Up,
        Direction::Right => Direction::Down,
        Direction::Down => Direction::Left,
    }
}

/// A half turn.
pub open spec fn reverse(d: Direction) -> Direction {
    match d {
        Direction::Up => Direction::Down,
        Direction::Left => Direction::Right,
        Direction::Right => Direction::Left,
        Direction::Down => Direction::Up,
    }
}

impl Direction {
    pub fn left(self) -> (r: Direction)
        ensures
            r == turn_left(self),
    {
        match self {
            Direction::Up => Direction::Left,
            Direction::Left => Direction::Down,
            Direction::Right => Direction::Up,
            Direction::Down => Direction::Right,
        }
    }

    pub fn right(self) -> (r: Direction)
        ensures
            r == turn_right(self),
    {
        match self {
            Direction::Up => Direction::Right,
            Direction::Left => Direction::Up,
            Direction::Right => Direction::Down,
            Direction::Down => Direction::Left,
        }
    }
}

impl Not for Direction {
    type Output = Direction;

    fn not(self) -> (r: Direction)
        ensures
            r == reverse(self),
    {
        match self {
            Direction::Up => Direction::Down,
            Direction::Left => Direction::Right,
            Direction::Right => Direction::Left,
            Direction::Down => Direction::Up,
        }
    }
}

impl NotSpecImpl for Direction {
    open spec fn obeys_not_spec() -> bool {
        true
    }

    open spec fn not_req(self) -> bool {
        true
    }

    open spec fn not_spec(self) -> Direction {
        reverse(self)
    }
}

/// A square of the board, or a displacement between squares.
#[derive(Debug, Clone, Copy, PartialEq, Eq, Default, Hash, Structural)]
pub struct Pos {
    pub rank: i32,
    pub file: i32,
}

/// The displacement `p` turned the way `d` faces (`Up` leaves it unchanged).
pub open spec fn rotated(p: Pos, d: Direction) -> Pos {
    match d {
        Direction::Up => p,
        Direction::Left => Pos { rank: p.file, file: (-p.rank) as i32 },
        Direction::Down => Pos { rank: (-p.rank) as i32, file: (-p.file) as i32 },
        Direction::Right => Pos { rank: (-p.file) as i32, file: p.rank },
    }
}

/// Whether both coordinates can be negated in `i32`.
pub open spec fn negatable(p: Pos) -> bool {
    p.rank > i32::MIN && p.file > i32::MIN
}

impl From<(i32, i32)> for Pos {
    fn from(value: (i32, i32)) -> (r: Pos)
        ensures
            r == (Pos { rank: value.0, file: value.1 }),
    {
        Pos { rank: value.0, file: value.1 }
    }
}

impl FromSpecImpl<(i32, i32)> for Pos {
    open spec fn obeys_from_spec() -> bool {
        true
    }

    open spec fn from_spec(v: (i32, i32)) -> Pos {
        Pos { rank: v.0, file: v.1 }
    }
}

/// Whether the sum of two positions fits in `i32` coordinates.
pub open spec fn sum_fits(a: Pos, b: Pos) -> bool {
    i32::MIN <= a.rank + b.rank <= i32::MAX && i32::MIN <= a.file + b.file <= i32::MAX
}

impl Add<Pos> for Pos {
    type Output = Pos;

    fn add(self, rhs: Pos) -> (r: Pos)
        ensures
            r.rank == self.rank + rhs.rank,
            r.file == self.file + rhs.file,
    {
        Pos { rank: self.rank + rhs.rank, file: self.file + rhs.file }
    }
}

impl AddSpecImpl<Pos> for Pos {
    open spec fn obeys_add_spec() -> bool {
        true
    }

    open spec fn add_req(self, rhs: Pos) -> bool {
        sum_fits(self, rhs)
    }

    open spec fn add_spec(self, rhs: Pos) -> Pos {
        Pos { rank: (self.rank + rhs.rank) as i32, file: (self.file + rhs.file) as i32 }
    }
}

impl Mul<Direction> for Pos {
    type Output = Pos;

    fn mul(self, rhs: Direction) -> (r: Pos)
        ensures
            r == rotated(self, rhs),
    {
        match rhs {
            Direction::Up => self,
            Direction::Left => Pos { rank: self.file, file: -self.rank },
            Direction::Down => Pos { rank: -self.rank, file: -self.file },
            Direction::Right => Pos { rank: -self.file, file: self.rank },
        }
    }
}

impl MulSpecImpl<Direction> for Pos {
    open spec fn obeys_mul_spec() -> bool {
        true
    }

    open spec fn mul_req(self, rhs: Direction) -> bool {
        negatable(self)
    }

    open spec fn mul_spec(self, rhs: Direction) -> Pos {
        rotated(self, rhs)
    }
}

/// Names a ladder held by a board: the raw parts of the arena index under
/// which the ladder is stored.
#[derive(Debug, Clone, Copy, PartialEq, Eq, Hash, Structural)]
pub struct LadderId {
    pub index: usize,
    pub generation: u64,
}

impl LadderId {
    /// The key under which the ladder is found among a board's ladders.
    pub open spec fn key(self) -> (usize, u64) {
        (self.index, self.generation)
    }
}

/// How far a knight has come with its ladder.
#[derive(Debug, Clone, Copy, PartialEq, Eq, Structural)]
pub enum LadderState {
    Unused,
    Building(LadderId),
    Spent,
}

/// A piece on the board.
#[derive(Debug, Clone, Copy, PartialEq, Eq, Structural)]
pub struct Piece {
    pub kind: Kind,
    pub color: Color,
    pub direction: Direction,
    pub moved: bool,
    pub ladder: LadderState,
    pub ladder_countdown: u8,
}

/// The letter of a kind, in lower case.
pub open spec fn kind_letter(k: Kind) -> char {
    match k {
        Kind::Pawn => 'p',
        Kind::Rook => 'r',
        Kind::Knight => 'n',
        Kind::Bishop => 'b',
        Kind::Queen => 'q',
        Kind::King => 'k',
        Kind::Knook => 'o',
    }
}

/// The letter of a piece: upper case for white, lower case for black.
pub open spec fn piece_letter(p: Piece) -> char {
    if p.color == Color::White {
        match p.kind {
            Kind::Pawn => 'P',
            Kind::Rook => 'R',
            Kind::Knight => 'N',
            Kind::Bishop => 'B',
            Kind::Queen => 'Q',
            Kind::King => 'K',
            Kind::Knook => 'O',
        }
    } else {
        kind_letter(p.kind)
    }
}

impl Piece {
    /// The letter that shows the piece: upper case for white.
    pub fn letter(&self) -> (r: char)
        ensures
            r == piece_letter(*self),
    {
        let c = match self.kind {
            Kind::Pawn => 'p',
            Kind::Rook => 'r',
            Kind::Knight => 'n',
            Kind::Bishop => 'b',
            Kind::Queen => 'q',
            Kind::King => 'k',
            Kind::Knook => 'o',
        };
        if self.color == Color::White {
            match c {
                'p' => 'P',
                'r' => 'R',
                'n' => 'N',
                'b' => 'B',
                'q' => 'Q',
                'k' => 'K',
                _ => 'O',
            }
        } else {
            c
        }
    }
}

/// A ladder that a knight builds between two squares.
#[derive(Debug, Clone, Copy, PartialEq, Eq, Structural)]
pub struct Ladder {
    pub start: Pos,
    pub end: Pos,
    pub built: bool,
}

} // verus!
