//! Rules engine and game logic of a chess variant with rotating pawns,
//! knight-built ladders and knooks, together with the decisions that its
//! server and client make around a game.

pub mod arena;
pub mod board;
pub mod chess_move;
pub mod client;
pub mod laws;
pub mod movegen;
pub mod net;
pub mod piece;
pub mod rules;
pub mod server;
pub mod table;

pub use board::{Board, Rules, Tile};
pub use chess_move::ChessMove;
pub use client::VERSION;
pub use movegen::ChessError;
pub use piece::{Color, Direction, Kind, Ladder, LadderId, LadderState, Piece, Pos};
