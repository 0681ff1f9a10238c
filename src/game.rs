//! Recorded game positions: one snapshot per player per move.

use vstd::prelude::*;
use crate::board::{Board, Piece, Rotation};

verus! {

/// The placement a player made to reach a position.
#[derive(Clone, Copy, Debug, PartialEq, Eq)]
pub struct Move {
    pub move_type: Option<Piece>,
    pub rotation: Rotation,
    pub x: u8,
    pub y: u8,
}

/// One player's position: the board, the pieces in play and the counters.
#[derive(Clone, Copy, Debug, PartialEq, Eq)]
pub struct GameState {
    pub board: Board,
    pub current_piece: Piece,
    pub placement: Move,
    pub meter: u8,
    pub combo: u8,
    pub attack: u8,
    pub b2b: u8,
    pub damage_received: u8,
    pub spun: bool,
    pub queue: [Piece; 5],
    pub hold: Option<Piece>,
}

/// Outcome recorded with a position: still playing, a win for either
/// player, or a draw.
#[allow(non_camel_case_types)]
#[derive(Clone, Copy, Debug, PartialEq, Eq, Structural)]
pub enum State {
    PLAYING,
    P1_WIN,
    P2_WIN,
    DRAW,
}

/// Both players' positions after one move of one game.
#[derive(Clone, Copy, Debug, PartialEq, Eq)]
pub struct Datum {
    pub p1: GameState,
    pub p2: GameState,
    pub state: State,
    pub game_id: u16,
    pub move_index: u16,
}

} // verus!
