use vstd::prelude::*;
use crate::board::Board;
use crate::coord::{Coord, mk, on_board};
use crate::piece::Kind;

verus! {

/// The square named by a file letter `a`..`h` and a rank number 1..8.
pub open spec fn named_square(file: char, rank: int) -> Option<Coord> {
    if 'a' <= file <= 'h' && 1 <= rank <= 8 {
        Some(mk(rank - 1, file as int - 'a' as int))
    } else {
        None
    }
}

/// The square a two-character token such as `e4` names.
pub open spec fn token_square(t: Seq<char>) -> Option<Coord> {
    if t.len() == 2 && '1' <= t[1] <= '8' {
        named_square(t[0], t[1] as int - '0' as int)
    } else {
        None
    }
}

/// The promotion a token asks for: `q`, `r`, `b`, and `n` or `k` for a knight.
pub open spec fn token_promotion(t: Seq<char>) -> Option<Kind> {
    if t == seq!['q'] {
        Some(Kind::Queen)
    } else if t == seq!['r'] {
        Some(Kind::Rook)
    } else if t == seq!['b'] {
        Some(Kind::Bishop)
    } else if t == seq!['n'] || t == seq!['k'] {
        Some(Kind::Knight)
    } else {
        None
    }
}

impl Board {
    /// The square with file letter `v1` and rank number `v2`, if there is one.
    pub fn notation_conversion(v1: char, v2: i32) -> (r: Option<Coord>)
        ensures
            r == named_square(v1, v2 as int),
    {
        let f = v1 as u32;
        if f >= 97 && f <= 104 && v2 >= 1 && v2 <= 8 {
            Some(Coord { row: v2 - 1, col: (f - 97) as i32 })
        } else {
            None
        }
    }

    /// The file letter and rank number of a square; `('a', 0)` off the board.
    pub fn reverse_notation_conversion(coord: Coord) -> (r: (char, i32))
        ensures
            on_board(coord) ==> named_square(r.0, r.1 as int) == Some(coord),
            !on_board(coord) ==> r == ('a', 0i32),
    {
        if coord.is_valid() {
            let letter = (97 + coord.col) as u8 as char;
            (letter, coord.row + 1)
        } else {
            ('a', 0)
        }
    }

    /// The square a move token such as `e4` names.
    pub fn parse_coord(token: &[char]) -> (r: Option<Coord>)
        ensures
            r == token_square(token@),
    {
        if token.len() != 2 || token[1] < '1' || token[1] > '8' {
            return None;
        }
        let rank = (token[1] as u32 - 48) as i32;
        Board::notation_conversion(token[0], rank)
    }

    /// The promotion a move token asks for.
    pub fn parse_promotion(token: &[char]) -> (r: Option<Kind>)
        ensures
            r == token_promotion(token@),
    {
        if token.len() != 1 {
            assert(token@ != seq!['q'] && token@ != seq!['r'] && token@ != seq!['b'] && token@
                != seq!['n'] && token@ != seq!['k']);
            return None;
        }
        let c = token[0];
        assert(token@ =~= seq![c]);
        if c == 'q' {
            Some(Kind::Queen)
        } else if c == 'r' {
            Some(Kind::Rook)
        } else if c == 'b' {
            Some(Kind::Bishop)
        } else if c == 'n' || c == 'k' {
            Some(Kind::Knight)
        } else {
            assert(token@ != seq!['q'] && token@ != seq!['r'] && token@ != seq!['b'] && token@
                != seq!['n'] && token@ != seq!['k']);
            None
        }
    }
}

} // verus!
