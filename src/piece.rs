use vstd::prelude::*;
use crate::coord::Coord;
use crate::player::Player;

verus! {

#[derive(Debug, Clone, Copy, PartialEq, Eq, Structural)]
pub enum Kind {
    Pawn,
    Rook,
    Knight,
    Bishop,
    Queen,
    King,
}

/// A piece standing on the board. `idx` is its position in its owner's piece
/// list.
#[derive(Debug, Clone, Copy, PartialEq, Eq, Structural)]
pub struct Piece {
    pub kind: Kind,
    pub player: Player,
    pub coord: Coord,
    pub idx: usize,
}

/// A piece with its square, without the list position.
#[derive(Debug, Clone, Copy, PartialEq, Eq, Structural)]
pub struct PieceCopy {
    pub coord: Coord,
    pub kind: Kind,
    pub player: Player,
}

/// The kinds a pawn may promote to, in the order queen, rook, bishop, knight.
pub open spec fn spec_promotion(i: int) -> Kind {
    if i == 0 {
        Kind::Queen
    } else if i == 1 {
        Kind::Rook
    } else if i == 2 {
        Kind::Bishop
    } else {
        Kind::Knight
    }
}

pub open spec fn is_promotion_kind(k: Kind) -> bool {
    k == Kind::Queen || k == Kind::Rook || k == Kind::Bishop || k == Kind::Knight
}

/// Material value of a kind; the king counts for nothing.
pub open spec fn spec_value(k: Kind) -> int {
    match k {
        Kind::Pawn => 100,
        Kind::Knight => 300,
        Kind::Bishop => 300,
        Kind::Rook => 500,
        Kind::Queen => 900,
        Kind::King => 0,
    }
}

impl Kind {
    pub const PAWN_VALUE: i32 = 100;
    pub const KNIGHT_VALUE: i32 = 300;
    pub const BISHOP_VALUE: i32 = 300;
    pub const ROOK_VALUE: i32 = 500;
    pub const QUEEN_VALUE: i32 = 900;

    pub fn promotion(i: usize) -> (r: Kind)
        requires
            i < 4,
        ensures
            r == spec_promotion(i as int),
    {
        if i == 0 {
            Kind::Queen
        } else if i == 1 {
            Kind::Rook
        } else if i == 2 {
            Kind::Bishop
        } else {
            Kind::Knight
        }
    }

    pub fn value(&self) -> (r: i32)
        ensures
            r == spec_value(*self),
    {
        match self {
            Kind::Pawn => Kind::PAWN_VALUE,
            Kind::Knight => Kind::KNIGHT_VALUE,
            Kind::Bishop => Kind::BISHOP_VALUE,
            Kind::Rook => Kind::ROOK_VALUE,
            Kind::Queen => Kind::QUEEN_VALUE,
            Kind::King => 0,
        }
    }

    /// The chess figurine of this kind in the given colour.
    pub fn character(&self, player: Player) -> (r: char)
        ensures
            player == Player::White && *self == Kind::Pawn ==> r == '\u{2659}',
            player == Player::White && *self == Kind::Rook ==> r == '\u{2656}',
            player == Player::White && *self == Kind::Knight ==> r == '\u{2658}',
            player == Player::White && *self == Kind::Bishop ==> r == '\u{2657}',
            player == Player::White && *self == Kind::Queen ==> r == '\u{2655}',
            player == Player::White && *self == Kind::King ==> r == '\u{2654}',
            player == Player::Black && *self == Kind::Pawn ==> r == '\u{265F}',
            player == Player::Black && *self == Kind::Rook ==> r == '\u{265C}',
            player == Player::Black && *self == Kind::Knight ==> r == '\u{265E}',
            player == Player::Black && *self == Kind::Bishop ==> r == '\u{265D}',
            player == Player::Black && *self == Kind::Queen ==> r == '\u{265B}',
            player == Player::Black && *self == Kind::King ==> r == '\u{265A}',
    {
        match player {
            Player::White => match self {
                Kind::Pawn => '\u{2659}',
                Kind::Rook => '\u{2656}',
                Kind::Knight => '\u{2658}',
                Kind::Bishop => '\u{2657}',
                Kind::Queen => '\u{2655}',
                Kind::King => '\u{2654}',
            },
            Player::Black => match self {
                Kind::Pawn => '\u{265F}',
                Kind::Rook => '\u{265C}',
                Kind::Knight => '\u{265E}',
                Kind::Bishop => '\u{265D}',
                Kind::Queen => '\u{265B}',
                Kind::King => '\u{265A}',
            },
        }
    }
}

} // verus!
