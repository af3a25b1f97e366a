use vstd::prelude::*;
use crate::coord::Coord;
use crate::piece::Kind;

verus! {

/// One half-move: a piece goes from `origin` to `destination`, a pawn reaching
/// the far rank becoming `promotion`.
#[derive(Debug, Clone, Copy, PartialEq, Eq, Structural)]
pub struct Ply {
    pub origin: Coord,
    pub destination: Coord,
    pub promotion: Option<Kind>,
}

} // verus!
