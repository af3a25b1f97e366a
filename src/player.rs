use vstd::prelude::*;
use crate::coord::{Coord, mk};

verus! {

#[derive(Debug, Clone, Copy, PartialEq, Eq, Structural)]
pub enum Player {
    Black,
    White,
}

pub open spec fn spec_opponent(p: Player) -> Player {
    match p {
        Player::Black => Player::White,
        Player::White => Player::Black,
    }
}

/// One step toward the far rank: up for White, down for Black.
pub open spec fn spec_advance(p: Player) -> Coord {
    match p {
        Player::White => mk(1, 0),
        Player::Black => mk(-1, 0),
    }
}

pub open spec fn spec_home_row(p: Player) -> int {
    match p {
        Player::White => 0,
        Player::Black => 7,
    }
}

/// The rank on which the player's pawns start.
pub open spec fn spec_pawn_row(p: Player) -> int {
    match p {
        Player::White => 1,
        Player::Black => 6,
    }
}

impl Player {
    pub fn opponent(&self) -> (r: Player)
        ensures
            r == spec_opponent(*self),
    {
        match self {
            Player::Black => Player::White,
            Player::White => Player::Black,
        }
    }

    pub fn advancing_direction(&self) -> (r: Coord)
        ensures
            r == spec_advance(*self),
    {
        match self {
            Player::White => Coord { row: 1, col: 0 },
            Player::Black => Coord { row: -1, col: 0 },
        }
    }

    pub fn home_row(&self) -> (r: i32)
        ensures
            r == spec_home_row(*self),
    {
        match self {
            Player::White => 0,
            Player::Black => 7,
        }
    }

    pub fn pawn_row(&self) -> (r: i32)
        ensures
            r == spec_pawn_row(*self),
    {
        match self {
            Player::White => 1,
            Player::Black => 6,
        }
    }
}

impl Default for Player {
    fn default() -> (r: Player)
        ensures
            r == Player::White,
    {
        Player::White
    }
}

} // verus!
