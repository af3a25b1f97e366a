use vstd::prelude::*;

verus! {

/// A square of the board, or a displacement between two squares.
#[derive(Debug, Clone, Copy, PartialEq, Eq, Structural)]
pub struct Coord {
    pub row: i32,
    pub col: i32,
}

/// The coordinate with the given components.
pub open spec fn mk(row: int, col: int) -> Coord {
    Coord { row: row as i32, col: col as i32 }
}

/// Inside the 8x8 board.
pub open spec fn on_board(c: Coord) -> bool {
    0 <= c.row < 8 && 0 <= c.col < 8
}

/// A displacement small enough to be added to any square of the board.
pub open spec fn is_step(d: Coord) -> bool {
    -2 <= d.row <= 2 && -2 <= d.col <= 2
}

/// Componentwise sum.
pub open spec fn plus(a: Coord, b: Coord) -> Coord {
    mk(a.row + b.row, a.col + b.col)
}

/// Componentwise difference.
pub open spec fn minus(a: Coord, b: Coord) -> Coord {
    mk(a.row - b.row, a.col - b.col)
}

/// The displacement pointing the other way.
pub open spec fn negate(d: Coord) -> Coord {
    mk(-d.row, -d.col)
}

/// The four rook directions, in the order right, down, up, left.
pub open spec fn spec_cardinal(i: int) -> Coord {
    if i == 0 {
        mk(0, 1)
    } else if i == 1 {
        mk(-1, 0)
    } else if i == 2 {
        mk(1, 0)
    } else {
        mk(0, -1)
    }
}

/// The four bishop directions: up-right, up-left, down-right, down-left.
pub open spec fn spec_diagonal(i: int) -> Coord {
    if i == 0 {
        mk(1, 1)
    } else if i == 1 {
        mk(1, -1)
    } else if i == 2 {
        mk(-1, 1)
    } else {
        mk(-1, -1)
    }
}

/// The eight queen (and king) directions: the rook ones, then the bishop ones.
pub open spec fn spec_any_dir(i: int) -> Coord {
    if i < 4 {
        spec_cardinal(i)
    } else {
        spec_diagonal(i - 4)
    }
}

/// The eight knight jumps.
pub open spec fn spec_knight(i: int) -> Coord {
    if i == 0 {
        mk(2, 1)
    } else if i == 1 {
        mk(1, 2)
    } else if i == 2 {
        mk(2, -1)
    } else if i == 3 {
        mk(1, -2)
    } else if i == 4 {
        mk(-2, 1)
    } else if i == 5 {
        mk(-1, 2)
    } else if i == 6 {
        mk(-2, -1)
    } else {
        mk(-1, -2)
    }
}

/// The unit direction from `two` toward `one`: along the rank when the rows
/// agree, along the file when the columns agree, else the diagonal given by the
/// signs of the two differences.
pub open spec fn spec_dir_between(one: Coord, two: Coord) -> Coord {
    let dr = one.row - two.row;
    let dc = one.col - two.col;
    if dr == 0 {
        if dc > 0 { mk(0, 1) } else { mk(0, -1) }
    } else if dc == 0 {
        if dr > 0 { mk(1, 0) } else { mk(-1, 0) }
    } else {
        mk(if dr > 0 { 1 } else { -1 }, if dc > 0 { 1 } else { -1 })
    }
}

/// A rook direction (neither component zero is excluded, both nonzero is a
/// bishop direction).
pub open spec fn is_diagonal(d: Coord) -> bool {
    d.row == d.col || d.row == -d.col
}

impl Coord {
    pub fn is_valid(&self) -> (r: bool)
        ensures
            r == on_board(*self),
    {
        self.col <= 7 && self.row <= 7 && self.col >= 0 && self.row >= 0
    }

    pub fn add(self, other: Coord) -> (r: Coord)
        requires
            i32::MIN <= self.row + other.row <= i32::MAX,
            i32::MIN <= self.col + other.col <= i32::MAX,
        ensures
            r == plus(self, other),
            r.row == self.row + other.row,
            r.col == self.col + other.col,
    {
        Coord { row: self.row + other.row, col: self.col + other.col }
    }

    pub fn sub(self, other: Coord) -> (r: Coord)
        requires
            i32::MIN <= self.row - other.row <= i32::MAX,
            i32::MIN <= self.col - other.col <= i32::MAX,
        ensures
            r == minus(self, other),
            r.row == self.row - other.row,
            r.col == self.col - other.col,
    {
        Coord { row: self.row - other.row, col: self.col - other.col }
    }

    pub fn neg(self) -> (r: Coord)
        requires
            is_step(self),
        ensures
            r == negate(self),
            r.row == -self.row,
            r.col == -self.col,
    {
        Coord { row: -self.row, col: -self.col }
    }

    pub fn cardinal(i: usize) -> (r: Coord)
        requires
            i < 4,
        ensures
            r == spec_cardinal(i as int),
    {
        if i == 0 {
            Coord { row: 0, col: 1 }
        } else if i == 1 {
            Coord { row: -1, col: 0 }
        } else if i == 2 {
            Coord { row: 1, col: 0 }
        } else {
            Coord { row: 0, col: -1 }
        }
    }

    pub fn diagonal(i: usize) -> (r: Coord)
        requires
            i < 4,
        ensures
            r == spec_diagonal(i as int),
    {
        if i == 0 {
            Coord { row: 1, col: 1 }
        } else if i == 1 {
            Coord { row: 1, col: -1 }
        } else if i == 2 {
            Coord { row: -1, col: 1 }
        } else {
            Coord { row: -1, col: -1 }
        }
    }

    pub fn any_dir(i: usize) -> (r: Coord)
        requires
            i < 8,
        ensures
            r == spec_any_dir(i as int),
    {
        if i < 4 {
            Coord::cardinal(i)
        } else {
            Coord::diagonal(i - 4)
        }
    }

    pub fn knight(i: usize) -> (r: Coord)
        requires
            i < 8,
        ensures
            r == spec_knight(i as int),
    {
        if i == 0 {
            Coord { row: 2, col: 1 }
        } else if i == 1 {
            Coord { row: 1, col: 2 }
        } else if i == 2 {
            Coord { row: 2, col: -1 }
        } else if i == 3 {
            Coord { row: 1, col: -2 }
        } else if i == 4 {
            Coord { row: -2, col: 1 }
        } else if i == 5 {
            Coord { row: -1, col: 2 }
        } else if i == 6 {
            Coord { row: -2, col: -1 }
        } else {
            Coord { row: -1, col: -2 }
        }
    }

    pub fn find_dir_between_coords(pos_one: Coord, pos_two: Coord) -> (r: Coord)
        requires
            i32::MIN <= pos_one.row - pos_two.row <= i32::MAX,
            i32::MIN <= pos_one.col - pos_two.col <= i32::MAX,
        ensures
            r == spec_dir_between(pos_one, pos_two),
    {
        let row_delta = pos_one.row - pos_two.row;
        let col_delta = pos_one.col - pos_two.col;
        if row_delta == 0 {
            if col_delta > 0 {
                Coord { row: 0, col: 1 }
            } else {
                Coord { row: 0, col: -1 }
            }
        } else if col_delta == 0 {
            if row_delta > 0 {
                Coord { row: 1, col: 0 }
            } else {
                Coord { row: -1, col: 0 }
            }
        } else {
            Coord {
                row: if row_delta > 0 { 1 } else { -1 },
                col: if col_delta > 0 { 1 } else { -1 },
            }
        }
    }
}

} // verus!
