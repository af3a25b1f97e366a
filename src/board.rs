use vstd::prelude::*;
use crate::coord::{Coord, on_board};
use crate::piece::{Kind, Piece};
use crate::player::Player;

verus! {

/// The state of a game: an 8x8 grid (row-major, `row * 8 + col`) and, for each
/// side, a dense list of its pieces. Every piece on the grid is also in its
/// owner's list at position `idx`, and the two copies agree.
#[derive(Debug, Clone)]
pub struct Board {
    pub turn: Player,
    pub board: Vec<Option<Piece>>,
    pub white_pieces: Vec<Piece>,
    pub black_pieces: Vec<Piece>,
    pub white_king_loc: Coord,
    pub black_king_loc: Coord,
    pub white_can_oo: bool,
    pub white_can_ooo: bool,
    pub black_can_oo: bool,
    pub black_can_ooo: bool,
    /// Plies since the last pawn move or capture.
    pub half_move_clock: u64,
    pub en_passant_square: Option<Coord>,
}

/// What a position is, without the bookkeeping of piece lists: the kind and
/// owner on each of the 64 squares, and the rest of the game state.
pub struct Position {
    pub grid: Seq<Option<(Kind, Player)>>,
    pub turn: Player,
    pub white_king: Coord,
    pub black_king: Coord,
    pub white_oo: bool,
    pub white_ooo: bool,
    pub black_oo: bool,
    pub black_ooo: bool,
    pub en_passant: Option<Coord>,
    pub clock: int,
}

/// Index of a square in the row-major grid.
pub open spec fn sq(c: Coord) -> int {
    c.row * 8 + c.col
}

pub open spec fn strip(o: Option<Piece>) -> Option<(Kind, Player)> {
    match o {
        Some(p) => Some((p.kind, p.player)),
        None => None,
    }
}

impl Position {
    /// Kind and owner on a square; nothing off the board.
    pub open spec fn at(self, c: Coord) -> Option<(Kind, Player)> {
        if on_board(c) {
            self.grid[sq(c)]
        } else {
            None
        }
    }

    pub open spec fn owner(self, c: Coord) -> Option<Player> {
        match self.at(c) {
            Some(x) => Some(x.1),
            None => None,
        }
    }

    pub open spec fn occupied(self, c: Coord) -> bool {
        self.at(c) is Some
    }

    pub open spec fn king(self, pl: Player) -> Coord {
        match pl {
            Player::White => self.white_king,
            Player::Black => self.black_king,
        }
    }
}

impl Board {
    pub open spec fn list(self, pl: Player) -> Seq<Piece> {
        match pl {
            Player::White => self.white_pieces@,
            Player::Black => self.black_pieces@,
        }
    }

    pub open spec fn king_at(self, pl: Player) -> Coord {
        match pl {
            Player::White => self.white_king_loc,
            Player::Black => self.black_king_loc,
        }
    }

    pub open spec fn piece_at(self, c: Coord) -> Option<Piece> {
        self.board@[sq(c)]
    }

    /// Every grid entry is in its owner's list at its index.
    pub open spec fn grid_in_lists(self) -> bool {
        forall|i: int|
            0 <= i < 64 && (#[trigger] self.board@[i]) is Some ==> {
                let p = self.board@[i]->0;
                &&& on_board(p.coord)
                &&& sq(p.coord) == i
                &&& p.idx < self.list(p.player).len()
                &&& self.list(p.player)[p.idx as int] == p
            }
    }

    /// Every list entry stands on the grid, and knows its index and owner.
    pub open spec fn list_on_grid(self, pl: Player) -> bool {
        forall|j: int|
            0 <= j < self.list(pl).len() ==> {
                let p = #[trigger] self.list(pl)[j];
                &&& p.idx == j
                &&& p.player == pl
                &&& on_board(p.coord)
                &&& self.board@[sq(p.coord)] == Some(p)
            }
    }

    /// Every king stands where its side's cached location says.
    pub open spec fn kings_cached(self) -> bool {
        &&& on_board(self.white_king_loc)
        &&& on_board(self.black_king_loc)
        &&& forall|i: int|
            0 <= i < 64 && (#[trigger] self.board@[i]) is Some && self.board@[i]->0.kind
                == Kind::King ==> self.board@[i]->0.coord == self.king_at(self.board@[i]->0.player)
    }

    pub open spec fn wf(self) -> bool {
        &&& self.board@.len() == 64
        &&& self.grid_in_lists()
        &&& self.list_on_grid(Player::White)
        &&& self.list_on_grid(Player::Black)
        &&& self.kings_cached()
        &&& match self.en_passant_square {
            Some(e) => on_board(e),
            None => true,
        }
    }

    pub open spec fn view(self) -> Position {
        Position {
            grid: self.board@.map_values(|o: Option<Piece>| strip(o)),
            turn: self.turn,
            white_king: self.white_king_loc,
            black_king: self.black_king_loc,
            white_oo: self.white_can_oo,
            white_ooo: self.white_can_ooo,
            black_oo: self.black_can_oo,
            black_ooo: self.black_can_ooo,
            en_passant: self.en_passant_square,
            clock: self.half_move_clock as int,
        }
    }

    /// Grid index of an on-board square.
    pub fn square_index(c: Coord) -> (r: usize)
        requires
            on_board(c),
        ensures
            r == sq(c),
            r < 64,
    {
        (c.row * 8 + c.col) as usize
    }

    pub fn get_piece_by_coord(&self, coord: Coord) -> (r: Option<Piece>)
        requires
            self.wf(),
            on_board(coord),
        ensures
            r == self.piece_at(coord),
            strip(r) == self.view().at(coord),
            r matches Some(p) ==> p.coord == coord,
    {
        self.board[Board::square_index(coord)]
    }

    pub fn get_piece_by_index(&self, idx: usize, player: Player) -> (r: Option<Piece>)
        requires
            self.wf(),
        ensures
            idx < self.list(player).len() <==> r is Some,
            r matches Some(p) ==> p == self.list(player)[idx as int],
    {
        match player {
            Player::Black => {
                if idx < self.black_pieces.len() {
                    Some(self.black_pieces[idx])
                } else {
                    None
                }
            },
            Player::White => {
                if idx < self.white_pieces.len() {
                    Some(self.white_pieces[idx])
                } else {
                    None
                }
            },
        }
    }

    pub fn is_square_occupied(&self, location: Coord) -> (r: bool)
        requires
            self.wf(),
        ensures
            r == self.view().occupied(location),
    {
        if location.is_valid() {
            self.board[Board::square_index(location)].is_some()
        } else {
            false
        }
    }

    pub fn player_at_square(&self, location: Coord) -> (r: Option<Player>)
        requires
            self.wf(),
        ensures
            r == self.view().owner(location),
    {
        if location.is_valid() {
            match self.board[Board::square_index(location)] {
                Some(p) => Some(p.player),
                None => None,
            }
        } else {
            None
        }
    }

    pub fn kind_at_square(&self, location: Coord) -> (r: Option<Kind>)
        requires
            self.wf(),
        ensures
            r == match self.view().at(location) {
                Some(x) => Some(x.0),
                None => None::<Kind>,
            },
    {
        if location.is_valid() {
            match self.board[Board::square_index(location)] {
                Some(p) => Some(p.kind),
                None => None,
            }
        } else {
            None
        }
    }

    pub fn find_king(&self, player: Player) -> (r: Coord)
        ensures
            r == self.view().king(player),
    {
        match player {
            Player::Black => self.black_king_loc,
            Player::White => self.white_king_loc,
        }
    }
}


impl Board {
    /// Whether one side's list agrees with the grid.
    fn list_matches(&self, list: &Vec<Piece>, pl: Player) -> (r: bool)
        requires
            self.board@.len() == 64,
            list@ == self.list(pl),
        ensures
            r == self.list_on_grid(pl),
    {
        let mut j: usize = 0;
        while j < list.len()
            invariant
                self.board@.len() == 64,
                list@ == self.list(pl),
                j <= list@.len(),
                forall|k: int|
                    0 <= k < j ==> {
                        let p = #[trigger] self.list(pl)[k];
                        &&& p.idx == k
                        &&& p.player == pl
                        &&& on_board(p.coord)
                        &&& self.board@[sq(p.coord)] == Some(p)
                    },
            decreases list@.len() - j,
        {
            let p = list[j];
            if p.idx != j || p.player != pl || !p.coord.is_valid() {
                return false;
            }
            match self.board[Board::square_index(p.coord)] {
                Some(q) => {
                    if q != p {
                        return false;
                    }
                },
                None => {
                    return false;
                },
            }
            j += 1;
        }
        true
    }

    /// Whether the grid, the piece lists and the cached king locations agree:
    /// every square's piece is in its owner's list at its index, every list
    /// entry stands on its square, every king stands where its side's cache
    /// says, and the en-passant square is on the board.
    pub fn check_everything(board: &Board) -> (r: bool)
        ensures
            r == board.wf(),
    {
        if board.board.len() != 64 || !board.white_king_loc.is_valid()
            || !board.black_king_loc.is_valid() {
            return false;
        }
        match board.en_passant_square {
            Some(e) => {
                if !e.is_valid() {
                    return false;
                }
            },
            None => {},
        }
        let mut i: usize = 0;
        while i < 64
            invariant
                board.board@.len() == 64,
                on_board(board.white_king_loc),
                on_board(board.black_king_loc),
                i <= 64,
                forall|k: int|
                    0 <= k < i && (#[trigger] board.board@[k]) is Some ==> {
                        let p = board.board@[k]->0;
                        &&& on_board(p.coord)
                        &&& sq(p.coord) == k
                        &&& p.idx < board.list(p.player).len()
                        &&& board.list(p.player)[p.idx as int] == p
                    },
                forall|k: int|
                    0 <= k < i && (#[trigger] board.board@[k]) is Some && board.board@[k]->0.kind
                        == Kind::King ==> board.board@[k]->0.coord == board.king_at(
                        board.board@[k]->0.player,
                    ),
            decreases 64 - i,
        {
            if let Some(p) = board.board[i] {
                if !p.coord.is_valid() || Board::square_index(p.coord) != i {
                    return false;
                }
                let list = match p.player {
                    Player::White => &board.white_pieces,
                    Player::Black => &board.black_pieces,
                };
                if p.idx >= list.len() || list[p.idx] != p {
                    return false;
                }
                if p.kind == Kind::King && p.coord != board.find_king(p.player) {
                    return false;
                }
            }
            i += 1;
        }
        board.list_matches(&board.white_pieces, Player::White) && board.list_matches(
            &board.black_pieces,
            Player::Black,
        )
    }
}

/// The position with the square `c` emptied.
pub open spec fn pos_remove(p: Position, c: Coord) -> Position {
    Position { grid: p.grid.update(sq(c), None), ..p }
}

/// The position with the piece on `from`, if any, moved to `to`, and its
/// side's king location following a king.
pub open spec fn pos_move(p: Position, from: Coord, to: Coord) -> Position {
    match p.at(from) {
        Some(x) => Position {
            grid: p.grid.update(sq(to), Some(x)).update(sq(from), None),
            white_king: if x == (Kind::King, Player::White) {
                to
            } else {
                p.white_king
            },
            black_king: if x == (Kind::King, Player::Black) {
                to
            } else {
                p.black_king
            },
            ..p
        },
        None => p,
    }
}

/// The position with the piece on `c`, if any, turned into `k`.
pub open spec fn pos_promote(p: Position, c: Coord, k: Kind) -> Position {
    match p.at(c) {
        Some(x) => Position { grid: p.grid.update(sq(c), Some((k, x.1))), ..p },
        None => p,
    }
}

/// Two positions that agree on everything but the grid.
pub open spec fn same_state(a: Position, b: Position) -> bool {
    &&& a.turn == b.turn
    &&& a.white_king == b.white_king
    &&& a.black_king == b.black_king
    &&& a.white_oo == b.white_oo
    &&& a.white_ooo == b.white_ooo
    &&& a.black_oo == b.black_oo
    &&& a.black_ooo == b.black_ooo
    &&& a.en_passant == b.en_passant
    &&& a.clock == b.clock
}

/// A list entry after the entry before it was removed: one place lower.
pub open spec fn shifted(q: Piece) -> Piece {
    Piece { idx: (q.idx - 1) as usize, ..q }
}

/// A grid entry after the list entry of `pl` at `r` was removed, for the
/// entries up to list position `upto` that have already been renumbered.
pub open spec fn renumbered(o: Option<Piece>, pl: Player, r: int, upto: int) -> Option<Piece> {
    match o {
        Some(q) => if q.player == pl && r < q.idx && q.idx - 1 < upto {
            Some(shifted(q))
        } else {
            o
        },
        None => None,
    }
}

/// After `list.remove(r)`, gives each later entry its new index, on the list
/// and on the grid.
fn renumber_after(list: &mut Vec<Piece>, grid: &mut Vec<Option<Piece>>, r: usize, pl: Player)
    requires
        r <= old(list)@.len(),
        old(grid)@.len() == 64,
        forall|k: int|
            r <= k < old(list)@.len() ==> {
                let q = #[trigger] old(list)@[k];
                &&& q.idx == k + 1
                &&& q.player == pl
                &&& on_board(q.coord)
                &&& old(grid)@[sq(q.coord)] == Some(q)
            },
        forall|i: int|
            0 <= i < 64 && (#[trigger] old(grid)@[i]) is Some ==> {
                let q = old(grid)@[i]->0;
                &&& sq(q.coord) == i
                &&& (q.player == pl && r < q.idx) ==> q.idx - 1 < old(list)@.len()
                    && old(list)@[q.idx - 1] == q
            },
    ensures
        final(list)@.len() == old(list)@.len(),
        forall|k: int|
            0 <= k < old(list)@.len() ==> #[trigger] final(list)@[k] == if r <= k {
                shifted(old(list)@[k])
            } else {
                old(list)@[k]
            },
        final(grid)@.len() == 64,
        forall|i: int|
            0 <= i < 64 ==> #[trigger] final(grid)@[i] == renumbered(
                old(grid)@[i],
                pl,
                r as int,
                old(list)@.len() as int,
            ),
{
    let mut k = r;
    while k < list.len()
        invariant
            r <= k <= list@.len(),
            list@.len() == old(list)@.len(),
            grid@.len() == 64,
            forall|j: int|
                0 <= j < old(list)@.len() ==> #[trigger] list@[j] == if r <= j < k {
                    shifted(old(list)@[j])
                } else {
                    old(list)@[j]
                },
            forall|i: int|
                0 <= i < 64 ==> #[trigger] grid@[i] == renumbered(old(grid)@[i], pl, r as int, k as int),
            forall|j: int|
                r <= j < old(list)@.len() ==> {
                    let q = #[trigger] old(list)@[j];
                    &&& q.idx == j + 1
                    &&& q.player == pl
                    &&& on_board(q.coord)
                    &&& old(grid)@[sq(q.coord)] == Some(q)
                },
            forall|i: int|
                0 <= i < 64 && (#[trigger] old(grid)@[i]) is Some ==> {
                    let q = old(grid)@[i]->0;
                    &&& sq(q.coord) == i
                    &&& (q.player == pl && r < q.idx) ==> q.idx - 1 < old(list)@.len()
                        && old(list)@[q.idx - 1] == q
                },
        decreases list@.len() - k,
    {
        let mut q = list[k];
        q.idx = k;
        list[k] = q;
        let s = Board::square_index(q.coord);
        grid[s] = Some(q);
        k += 1;
    }
}

impl Board {
    /// Puts a piece on an empty square, appending it to its owner's list.
    pub fn add_piece_to_empty_square(&mut self, p: Piece)
        requires
            old(self).wf(),
            on_board(p.coord),
            old(self).piece_at(p.coord) is None,
            p.kind == Kind::King ==> p.coord == old(self).king_at(p.player),
        ensures
            final(self).wf(),
            final(self).view().grid == old(self).view().grid.update(
                sq(p.coord),
                Some((p.kind, p.player)),
            ),
            same_state(final(self).view(), old(self).view()),
    {
        let i = Board::square_index(p.coord);
        let mut q = p;
        match p.player {
            Player::Black => {
                q.idx = self.black_pieces.len();
                self.black_pieces.push(q);
            },
            Player::White => {
                q.idx = self.white_pieces.len();
                self.white_pieces.push(q);
            },
        }
        self.board[i] = Some(q);
        assert(self.view().grid =~= old(self).view().grid.update(
            sq(p.coord),
            Some((p.kind, p.player)),
        ));
    }

    /// Takes the piece off a square, if there is one; the pieces after it in
    /// its owner's list move one place down.
    pub fn remove_piece_from_occupied_square(&mut self, coord: Coord)
        requires
            old(self).wf(),
            on_board(coord),
        ensures
            final(self).wf(),
            final(self).view() == pos_remove(old(self).view(), coord),
    {
        let s = Board::square_index(coord);
        if let Some(p) = self.board[s] {
            let ghost before = *self;
            assert(self.list(p.player)[p.idx as int] == p);
            proof {
                lemma_renumber_pre(before, p);
            }
            match p.player {
                Player::Black => {
                    self.black_pieces.remove(p.idx);
                    renumber_after(&mut self.black_pieces, &mut self.board, p.idx, Player::Black);
                },
                Player::White => {
                    self.white_pieces.remove(p.idx);
                    renumber_after(&mut self.white_pieces, &mut self.board, p.idx, Player::White);
                },
            }
            self.board[s] = None;
            proof {
                lemma_removed_wf(before, *self, p);
            }
            assert(self.view().grid =~= old(self).view().grid.update(sq(coord), None));
        } else {
            assert(self.view().grid =~= old(self).view().grid.update(sq(coord), None));
        }
    }
}

/// What `renumber_after` needs, once the entry `p` is removed from its list.
#[verifier::rlimit(40)]
proof fn lemma_renumber_pre(b: Board, p: Piece)
    requires
        b.wf(),
        on_board(p.coord),
        b.board@[sq(p.coord)] == Some(p),
    ensures
        p.idx < b.list(p.player).len(),
        b.list(p.player)[p.idx as int] == p,
        forall|k: int|
            p.idx <= k < b.list(p.player).remove(p.idx as int).len() ==> {
                let q = #[trigger] b.list(p.player).remove(p.idx as int)[k];
                &&& q.idx == k + 1
                &&& q.player == p.player
                &&& on_board(q.coord)
                &&& b.board@[sq(q.coord)] == Some(q)
            },
        forall|i: int|
            0 <= i < 64 && (#[trigger] b.board@[i]) is Some ==> {
                let q = b.board@[i]->0;
                &&& sq(q.coord) == i
                &&& (q.player == p.player && p.idx < q.idx) ==> q.idx - 1 < b.list(p.player).remove(
                    p.idx as int,
                ).len() && b.list(p.player).remove(p.idx as int)[q.idx - 1] == q
            },
{
    let l = b.list(p.player);
    let lr = l.remove(p.idx as int);
    assert forall|k: int| p.idx <= k < lr.len() implies {
        let q = #[trigger] lr[k];
        &&& q.idx == k + 1
        &&& q.player == p.player
        &&& on_board(q.coord)
        &&& b.board@[sq(q.coord)] == Some(q)
    } by {
        assert(lr[k] == l[k + 1]);
    }
    assert forall|i: int| 0 <= i < 64 && (#[trigger] b.board@[i]) is Some implies {
        let q = b.board@[i]->0;
        &&& sq(q.coord) == i
        &&& (q.player == p.player && p.idx < q.idx) ==> q.idx - 1 < lr.len() && lr[q.idx - 1] == q
    } by {
        let q = b.board@[i]->0;
        if q.player == p.player && p.idx < q.idx {
            assert(lr[q.idx - 1] == l[q.idx as int]);
        }
    }
}

/// The board that results from taking `p` off the grid and its list, and
/// renumbering the later entries, is well formed.
proof fn lemma_removed_wf(b: Board, n: Board, p: Piece)
    requires
        b.wf(),
        on_board(p.coord),
        b.board@[sq(p.coord)] == Some(p),
        n.board@.len() == 64,
        n.list(p.player).len() == b.list(p.player).len() - 1,
        forall|k: int|
            0 <= k < n.list(p.player).len() ==> #[trigger] n.list(p.player)[k] == if p.idx <= k {
                shifted(b.list(p.player).remove(p.idx as int)[k])
            } else {
                b.list(p.player).remove(p.idx as int)[k]
            },
        n.list(crate::player::spec_opponent(p.player)) == b.list(crate::player::spec_opponent(p.player)),
        forall|i: int|
            0 <= i < 64 ==> #[trigger] n.board@[i] == if i == sq(p.coord) {
                None
            } else {
                renumbered(b.board@[i], p.player, p.idx as int, n.list(p.player).len() as int)
            },
        n.white_king_loc == b.white_king_loc,
        n.black_king_loc == b.black_king_loc,
        n.en_passant_square == b.en_passant_square,
    ensures
        n.wf(),
{
    let pl = p.player;
    let op = crate::player::spec_opponent(pl);
    let l = b.list(pl);
    assert(l[p.idx as int] == p);
    assert forall|i: int| 0 <= i < 64 && (#[trigger] n.board@[i]) is Some implies {
        let q = n.board@[i]->0;
        &&& on_board(q.coord)
        &&& sq(q.coord) == i
        &&& q.idx < n.list(q.player).len()
        &&& n.list(q.player)[q.idx as int] == q
    } by {
        let o = b.board@[i]->0;
        assert(b.list(o.player)[o.idx as int] == o);
        if o.player == pl {
            if p.idx < o.idx {
                assert(n.list(pl)[o.idx - 1] == shifted(l.remove(p.idx as int)[o.idx - 1]));
                assert(l.remove(p.idx as int)[o.idx - 1] == l[o.idx as int]);
            } else if o.idx == p.idx {
                assert(o == p);
            } else {
                assert(n.list(pl)[o.idx as int] == l.remove(p.idx as int)[o.idx as int]);
            }
        } else {
            assert(o.player == op);
        }
    }
    assert(n.grid_in_lists());
    assert forall|j: int| 0 <= j < n.list(pl).len() implies {
        let q = #[trigger] n.list(pl)[j];
        &&& q.idx == j
        &&& q.player == pl
        &&& on_board(q.coord)
        &&& n.board@[sq(q.coord)] == Some(q)
    } by {
        if p.idx <= j {
            let o = l[j + 1];
            assert(l.remove(p.idx as int)[j] == o);
            assert(b.board@[sq(o.coord)] == Some(o));
            assert(sq(o.coord) != sq(p.coord));
        } else {
            let o = l[j];
            assert(l.remove(p.idx as int)[j] == o);
            assert(b.board@[sq(o.coord)] == Some(o));
            assert(sq(o.coord) != sq(p.coord));
        }
    }
    assert forall|j: int| 0 <= j < n.list(op).len() implies {
        let q = #[trigger] n.list(op)[j];
        &&& q.idx == j
        &&& q.player == op
        &&& on_board(q.coord)
        &&& n.board@[sq(q.coord)] == Some(q)
    } by {
        let o = b.list(op)[j];
        assert(b.board@[sq(o.coord)] == Some(o));
    }
    if pl == Player::White {
        assert(n.list_on_grid(Player::White));
        assert(n.list_on_grid(Player::Black));
    } else {
        assert(n.list_on_grid(Player::White));
        assert(n.list_on_grid(Player::Black));
    }
    assert forall|i: int|
        0 <= i < 64 && (#[trigger] n.board@[i]) is Some && n.board@[i]->0.kind
            == Kind::King implies n.board@[i]->0.coord == n.king_at(n.board@[i]->0.player) by {
        assert(b.board@[i] is Some);
    }
}

impl Board {
    /// Rewrites the kind of a piece on the board, in place.
    pub fn promote_piece(&mut self, p: Piece, promo: Kind)
        requires
            old(self).wf(),
            on_board(p.coord),
            old(self).board@[sq(p.coord)] == Some(p),
            promo == Kind::King ==> p.coord == old(self).king_at(p.player),
        ensures
            final(self).wf(),
            final(self).view() == pos_promote(old(self).view(), p.coord, promo),
    {
        let mut q = p;
        q.kind = promo;
        assert(self.list(p.player)[p.idx as int] == p);
        match p.player {
            Player::Black => {
                self.black_pieces[p.idx] = q;
            },
            Player::White => {
                self.white_pieces[p.idx] = q;
            },
        }
        let s = Board::square_index(p.coord);
        self.board[s] = Some(q);
        proof {
            lemma_replaced_wf(*old(self), *self, p, q);
        }
        assert(self.view().grid =~= old(self).view().grid.update(
            sq(p.coord),
            Some((promo, p.player)),
        ));
    }

    /// Moves the piece on `origin`, if any, to `destination`, taking off
    /// whatever stood there; a king's cached location follows it.
    pub fn move_piece_by_coord(&mut self, origin: Coord, destination: Coord)
        requires
            old(self).wf(),
            on_board(origin),
            on_board(destination),
            origin != destination,
        ensures
            final(self).wf(),
            final(self).view() == pos_move(old(self).view(), origin, destination),
    {
        let so = Board::square_index(origin);
        let sd = Board::square_index(destination);
        if let Some(_) = self.board[so] {
            self.remove_piece_from_occupied_square(destination);
            assert(sq(destination) != sq(origin));
            assert(self.view().grid[so as int] == old(self).view().grid[so as int]);
            assert(self.board@[so as int] is Some);
            assert(self.view().grid[sd as int] is None);
            assert(self.board@[sd as int] is None);
            let mut p = self.board[so].unwrap();
            let ghost mid = *self;
            let ghost p0 = p;
            assert(self.list(p.player)[p.idx as int] == p);
            p.coord = destination;
            self.board[so] = None;
            self.board[sd] = Some(p);
            match p.player {
                Player::Black => {
                    self.black_pieces[p.idx] = p;
                },
                Player::White => {
                    self.white_pieces[p.idx] = p;
                },
            }
            if p.kind == Kind::King {
                match p.player {
                    Player::Black => {
                        self.black_king_loc = destination;
                    },
                    Player::White => {
                        self.white_king_loc = destination;
                    },
                }
            }
            proof {
                lemma_relocated_wf(mid, *self, p0, destination);
                assert(mid.view().grid == old(self).view().grid.update(sq(destination), None));
                assert(old(self).view().at(origin) == mid.view().grid[so as int]);
                assert(strip(Some(p)) == mid.view().grid[so as int]);
                let want = old(self).view().grid.update(sq(destination), old(self).view().at(origin)).update(
                    sq(origin),
                    None,
                );
                assert forall|i: int| 0 <= i < 64 implies self.view().grid[i] == want[i] by {
                    if i != so && i != sd {
                        assert(mid.view().grid[i] == old(self).view().grid[i]);
                        assert(self.board@[i] == mid.board@[i]);
                    }
                }
            }
            assert(self.view().grid =~= old(self).view().grid.update(
                sq(destination),
                old(self).view().at(origin),
            ).update(sq(origin), None));
        } else {
            assert(self.view().grid =~= old(self).view().grid);
        }
    }
}

/// Replacing a piece on the grid and in its list by one that differs only in
/// kind keeps the board well formed.
proof fn lemma_replaced_wf(b: Board, n: Board, p: Piece, q: Piece)
    requires
        b.wf(),
        on_board(p.coord),
        b.board@[sq(p.coord)] == Some(p),
        q == (Piece { kind: q.kind, ..p }),
        q.kind == Kind::King ==> p.coord == b.king_at(p.player),
        n.board@ == b.board@.update(sq(p.coord), Some(q)),
        n.list(p.player) == b.list(p.player).update(p.idx as int, q),
        n.list(crate::player::spec_opponent(p.player)) == b.list(crate::player::spec_opponent(p.player)),
        n.white_king_loc == b.white_king_loc,
        n.black_king_loc == b.black_king_loc,
        n.en_passant_square == b.en_passant_square,
    ensures
        n.wf(),
{
    let pl = p.player;
    let op = crate::player::spec_opponent(pl);
    assert(b.list(pl)[p.idx as int] == p);
    assert forall|i: int| 0 <= i < 64 && (#[trigger] n.board@[i]) is Some implies {
        let x = n.board@[i]->0;
        &&& on_board(x.coord)
        &&& sq(x.coord) == i
        &&& x.idx < n.list(x.player).len()
        &&& n.list(x.player)[x.idx as int] == x
    } by {
        if i != sq(p.coord) {
            let o = b.board@[i]->0;
            assert(b.list(o.player)[o.idx as int] == o);
            if o.player == pl && o.idx == p.idx {
                assert(o == p);
            }
        }
    }
    assert forall|j: int| 0 <= j < n.list(pl).len() implies {
        let x = #[trigger] n.list(pl)[j];
        &&& x.idx == j
        &&& x.player == pl
        &&& on_board(x.coord)
        &&& n.board@[sq(x.coord)] == Some(x)
    } by {
        let o = b.list(pl)[j];
        assert(b.board@[sq(o.coord)] == Some(o));
    }
    assert forall|j: int| 0 <= j < n.list(op).len() implies {
        let x = #[trigger] n.list(op)[j];
        &&& x.idx == j
        &&& x.player == op
        &&& on_board(x.coord)
        &&& n.board@[sq(x.coord)] == Some(x)
    } by {
        let o = b.list(op)[j];
        assert(b.board@[sq(o.coord)] == Some(o));
    }
    if pl == Player::White {
        assert(n.list_on_grid(Player::White));
        assert(n.list_on_grid(Player::Black));
    } else {
        assert(n.list_on_grid(Player::White));
        assert(n.list_on_grid(Player::Black));
    }
}

/// Moving a piece from its square to an empty square, in the grid and its
/// list, keeps the board well formed when a king's cache follows it.
proof fn lemma_relocated_wf(b: Board, n: Board, p: Piece, d: Coord)
    requires
        b.wf(),
        on_board(p.coord),
        on_board(d),
        b.board@[sq(p.coord)] == Some(p),
        b.board@[sq(d)] is None,
        n.board@ == b.board@.update(sq(p.coord), None).update(sq(d), Some(Piece { coord: d, ..p })),
        n.list(p.player) == b.list(p.player).update(p.idx as int, Piece { coord: d, ..p }),
        n.list(crate::player::spec_opponent(p.player)) == b.list(crate::player::spec_opponent(p.player)),
        n.white_king_loc == if p.kind == Kind::King && p.player == Player::White {
            d
        } else {
            b.white_king_loc
        },
        n.black_king_loc == if p.kind == Kind::King && p.player == Player::Black {
            d
        } else {
            b.black_king_loc
        },
        n.en_passant_square == b.en_passant_square,
    ensures
        n.wf(),
{
    let pl = p.player;
    let op = crate::player::spec_opponent(pl);
    let q = Piece { coord: d, ..p };
    assert(b.list(pl)[p.idx as int] == p);
    assert(sq(d) != sq(p.coord));
    assert forall|i: int| 0 <= i < 64 && (#[trigger] n.board@[i]) is Some implies {
        let x = n.board@[i]->0;
        &&& on_board(x.coord)
        &&& sq(x.coord) == i
        &&& x.idx < n.list(x.player).len()
        &&& n.list(x.player)[x.idx as int] == x
    } by {
        if i != sq(p.coord) && i != sq(d) {
            let o = b.board@[i]->0;
            assert(b.list(o.player)[o.idx as int] == o);
            if o.player == pl && o.idx == p.idx {
                assert(o == p);
            }
        }
    }
    assert forall|j: int| 0 <= j < n.list(pl).len() implies {
        let x = #[trigger] n.list(pl)[j];
        &&& x.idx == j
        &&& x.player == pl
        &&& on_board(x.coord)
        &&& n.board@[sq(x.coord)] == Some(x)
    } by {
        if j != p.idx {
            let o = b.list(pl)[j];
            assert(b.board@[sq(o.coord)] == Some(o));
            assert(sq(o.coord) != sq(p.coord));
        }
    }
    assert forall|j: int| 0 <= j < n.list(op).len() implies {
        let x = #[trigger] n.list(op)[j];
        &&& x.idx == j
        &&& x.player == op
        &&& on_board(x.coord)
        &&& n.board@[sq(x.coord)] == Some(x)
    } by {
        let o = b.list(op)[j];
        assert(b.board@[sq(o.coord)] == Some(o));
    }
    if pl == Player::White {
        assert(n.list_on_grid(Player::White));
        assert(n.list_on_grid(Player::Black));
    } else {
        assert(n.list_on_grid(Player::White));
        assert(n.list_on_grid(Player::Black));
    }
    assert forall|i: int|
        0 <= i < 64 && (#[trigger] n.board@[i]) is Some && n.board@[i]->0.kind
            == Kind::King implies n.board@[i]->0.coord == n.king_at(n.board@[i]->0.player) by {
        if i != sq(d) {
            assert(b.board@[i] is Some);
            let o = b.board@[i]->0;
            if p.kind == Kind::King && o.player == pl {
                assert(o.coord == b.king_at(pl));
                assert(p.coord == b.king_at(pl));
            }
        }
    }
}

} // verus!
