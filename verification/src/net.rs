//! Messages between the client and the server, and the records that they
//! exchange about rooms.

use vstd::prelude::*;
use crate::chess_move::ChessMove;

verus! {

/// A game room.
#[derive(Clone, Debug, PartialEq, Eq)]
pub struct Room {
    pub id: i32,
    pub name: Option<String>,
}

/// A player's seat in a room, as the server hands it out.
#[derive(Clone, Debug, PartialEq, Eq)]
pub struct RoomPlayer {
    pub id: i32,
    pub is_white: bool,
    pub token: String,
    pub connection_token: String,
    pub code: Option<String>,
}

/// The request to create a room, with an optional name.
#[derive(Clone, Debug, PartialEq, Eq)]
pub struct CreateRoom(pub Option<String>);

/// What happens in a game.
#[derive(Clone, Copy, Debug, PartialEq, Eq, Structural)]
pub enum ChessEvent {
    Move(ChessMove),
    Start,
    GameEnded,
}

/// What the server sends over a game connection: every event so far, a new
/// event, or the refusal of a move.
#[derive(Clone, Debug, PartialEq, Eq)]
pub enum ChessMessage {
    Sync(Vec<ChessEvent>),
    Event(ChessEvent),
    MoveError,
}

/// What the client sends over a game connection.
#[derive(Clone, Copy, Debug, PartialEq, Eq, Structural)]
pub enum ClientMessage {
    Move(ChessMove),
}

/// A request of the type `T` that the client makes over HTTP.
#[derive(Clone, Debug, PartialEq, Eq)]
pub struct HttpRequest<T>(pub T);

} // verus!
