use vstd::prelude::*;

verus! {

/// How a game stands after a move.
#[derive(Debug, Clone, Copy, PartialEq, Eq, Structural)]
pub enum Status {
    Ongoing,
    Draw,
    WWin,
    BWin,
    Invalid,
}

} // verus!
