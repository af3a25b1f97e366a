use vstd::prelude::*;
use crate::attack::attacked;
use crate::board::{Board, Position};
use crate::coord::{Coord, is_step, mk, negate, on_board, plus, spec_any_dir, spec_knight};
use crate::piece::{Kind, spec_promotion};
use crate::player::{Player, spec_advance, spec_home_row, spec_opponent, spec_pawn_row};
use crate::ply::Ply;

verus! {

/// A ply without promotion.
pub open spec fn plain(o: Coord, d: Coord) -> Ply {
    Ply { origin: o, destination: d, promotion: None }
}

pub open spec fn promoting(o: Coord, d: Coord, i: int) -> Ply {
    Ply { origin: o, destination: d, promotion: Some(spec_promotion(i)) }
}

/// The plies of a pawn going from `o` to `d`: one for each promotion kind when
/// `d` is on the first or last rank, else a single plain ply.
pub open spec fn pawn_plies(o: Coord, d: Coord) -> Seq<Ply> {
    if d.row == 0 || d.row == 7 {
        seq![promoting(o, d, 0), promoting(o, d, 1), promoting(o, d, 2), promoting(o, d, 3)]
    } else {
        seq![plain(o, d)]
    }
}

/// Single steps from `o` by the first `n` entries of the knight table (or of
/// the king table), onto squares of the board that `pl` does not occupy; a
/// king never onto a square that the other side attacks.
pub open spec fn step_moves(p: Position, o: Coord, pl: Player, knight: bool, n: int) -> Seq<Ply>
    decreases n,
{
    if n <= 0 {
        seq![]
    } else {
        let prev = step_moves(p, o, pl, knight, n - 1);
        let d = plus(o, if knight { spec_knight(n - 1) } else { spec_any_dir(n - 1) });
        if on_board(d) && p.owner(d) != Some(pl) && (knight || !attacked(p, d, spec_opponent(pl))) {
            prev.push(plain(o, d))
        } else {
            prev
        }
    }
}

/// The squares a slider of `pl` standing on `o` reaches from `c` onward in
/// direction `d`: empty squares, then at most one square of the other side.
pub open spec fn ray_moves(p: Position, o: Coord, c: Coord, d: Coord, pl: Player, fuel: nat) -> Seq<
    Ply,
>
    decreases fuel,
{
    if fuel == 0 {
        seq![]
    } else {
        let n = plus(c, d);
        if !on_board(n) || p.owner(n) == Some(pl) {
            seq![]
        } else if p.owner(n) == Some(spec_opponent(pl)) {
            seq![plain(o, n)]
        } else {
            seq![plain(o, n)] + ray_moves(p, o, n, d, pl, (fuel - 1) as nat)
        }
    }
}

/// A direction that a piece pinned along `pin` may still take.
pub open spec fn along(d: Coord, pin: Option<Coord>) -> bool {
    match pin {
        Some(x) => d == x || d == negate(x),
        None => true,
    }
}

/// The slider moves along the directions `lo .. n` of the queen table that
/// `pin` allows.
pub open spec fn slide_moves(p: Position, o: Coord, pl: Player, lo: int, n: int, pin: Option<Coord>) -> Seq<
    Ply,
>
    decreases n - lo,
{
    if n <= lo {
        seq![]
    } else {
        let prev = slide_moves(p, o, pl, lo, n - 1, pin);
        if along(spec_any_dir(n - 1), pin) {
            prev + ray_moves(p, o, o, spec_any_dir(n - 1), pl, 8)
        } else {
            prev
        }
    }
}

/// Pawn pushes: one square ahead when it is empty, and two from the starting
/// rank when both are empty.
pub open spec fn pawn_pushes(p: Position, o: Coord, pl: Player) -> Seq<Ply> {
    let d1 = plus(o, spec_advance(pl));
    let d2 = plus(d1, spec_advance(pl));
    if !on_board(d1) || p.occupied(d1) {
        seq![]
    } else if o.row == spec_pawn_row(pl) && !p.occupied(d2) {
        pawn_plies(o, d1).push(plain(o, d2))
    } else {
        pawn_plies(o, d1)
    }
}

/// The square a pawn of `pl` on `o` captures on, to the left (`i == 0`) or to
/// the right.
pub open spec fn capture_square(o: Coord, pl: Player, i: int) -> Coord {
    plus(plus(o, if i == 0 { mk(0, -1) } else { mk(0, 1) }), spec_advance(pl))
}

pub open spec fn capture_side(p: Position, o: Coord, pl: Player, i: int) -> Seq<Ply> {
    let c = capture_square(o, pl, i);
    if on_board(c) && p.owner(c) == Some(spec_opponent(pl)) {
        pawn_plies(o, c)
    } else {
        seq![]
    }
}

/// Diagonal captures onto pieces of the other side, left then right.
pub open spec fn pawn_captures(p: Position, o: Coord, pl: Player) -> Seq<Ply> {
    capture_side(p, o, pl, 0) + capture_side(p, o, pl, 1)
}

/// The en-passant capture: onto the target square, from a square beside the
/// pawn that has just advanced two squares.
pub open spec fn pawn_en_passant(p: Position, o: Coord, pl: Player) -> Seq<Ply> {
    match p.en_passant {
        Some(e) => if plus(o, spec_advance(pl)).row == e.row && (o.col + 1 == e.col || o.col - 1
            == e.col) {
            seq![plain(o, e)]
        } else {
            seq![]
        },
        None => seq![],
    }
}

/// Castling for the side to move, for a king on its home square: kingside
/// first, then queenside. The right must be held, the squares between king
/// and rook empty, and the squares the king starts on, crosses and lands on
/// not attacked.
pub open spec fn castling_moves(p: Position, o: Coord) -> Seq<Ply> {
    let pl = p.turn;
    let row = spec_home_row(pl);
    let op = spec_opponent(pl);
    let (oo, ooo) = match pl {
        Player::White => (p.white_oo, p.white_ooo),
        Player::Black => (p.black_oo, p.black_ooo),
    };
    let king_side = oo && !attacked(p, mk(row, 4), op) && !attacked(p, mk(row, 5), op) && !attacked(
        p,
        mk(row, 6),
        op,
    ) && !p.occupied(mk(row, 5)) && !p.occupied(mk(row, 6));
    let queen_side = ooo && !attacked(p, mk(row, 4), op) && !attacked(p, mk(row, 2), op)
        && !attacked(p, mk(row, 3), op) && !p.occupied(mk(row, 1)) && !p.occupied(mk(row, 2))
        && !p.occupied(mk(row, 3));
    if o != mk(row, 4) {
        seq![]
    } else {
        (if king_side {
            seq![plain(o, mk(row, 6))]
        } else {
            seq![]
        }) + (if queen_side {
            seq![plain(o, mk(row, 2))]
        } else {
            seq![]
        })
    }
}

/// All pawn moves but en passant.
pub open spec fn pawn_moves(p: Position, o: Coord, pl: Player) -> Seq<Ply> {
    pawn_pushes(p, o, pl) + pawn_captures(p, o, pl)
}

/// The moves of the piece on `o` by its movement rules alone, whether or not
/// they leave its own king attacked (a king's steps excepted).
pub open spec fn pseudo_legal(p: Position, o: Coord) -> Seq<Ply> {
    match p.at(o) {
        None => seq![],
        Some((k, pl)) => match k {
            Kind::Pawn => pawn_moves(p, o, pl) + pawn_en_passant(p, o, pl),
            Kind::Knight => step_moves(p, o, pl, true, 8),
            Kind::Bishop => slide_moves(p, o, pl, 4, 8, None),
            Kind::Rook => slide_moves(p, o, pl, 0, 4, None),
            Kind::Queen => slide_moves(p, o, pl, 0, 8, None),
            Kind::King => step_moves(p, o, pl, false, 8) + castling_moves(p, o),
        },
    }
}

impl Board {
    /// Whether `pl` owns the piece on `c`.
    pub fn owned_by(&self, c: Coord, pl: Player) -> (r: bool)
        requires
            self.wf(),
        ensures
            r == (self.view().owner(c) == Some(pl)),
    {
        match self.player_at_square(c) {
            Some(x) => x == pl,
            None => false,
        }
    }

    fn push_pawn_plies(origin: Coord, destination: Coord, out: &mut Vec<Ply>)
        ensures
            final(out)@ == old(out)@ + pawn_plies(origin, destination),
    {
        if destination.row == 0 || destination.row == 7 {
            let mut i: usize = 0;
            while i < 4
                invariant
                    i <= 4,
                    destination.row == 0 || destination.row == 7,
                    out@ == old(out)@ + pawn_plies(origin, destination).take(i as int),
                decreases 4 - i,
            {
                out.push(Ply { origin, destination, promotion: Some(Kind::promotion(i)) });
                assert(pawn_plies(origin, destination).take(i + 1) =~= pawn_plies(
                    origin,
                    destination,
                ).take(i as int).push(promoting(origin, destination, i as int)));
                i += 1;
            }
            assert(pawn_plies(origin, destination).take(4) =~= pawn_plies(origin, destination));
        } else {
            out.push(Ply { origin, destination, promotion: None });
            assert(out@ =~= old(out)@ + pawn_plies(origin, destination));
        }
    }

    /// Knight jumps (`knight`) or king steps of the piece of `player` on
    /// `origin`.
    fn get_step_moves(&self, origin: Coord, player: Player, knight: bool, out: &mut Vec<Ply>)
        requires
            self.wf(),
            on_board(origin),
        ensures
            final(out)@ == old(out)@ + step_moves(self.view(), origin, player, knight, 8),
    {
        let mut i: usize = 0;
        while i < 8
            invariant
                self.wf(),
                on_board(origin),
                i <= 8,
                out@ == old(out)@ + step_moves(self.view(), origin, player, knight, i as int),
            decreases 8 - i,
        {
            let delta = if knight {
                Coord::knight(i)
            } else {
                Coord::any_dir(i)
            };
            let d = origin.add(delta);
            if d.is_valid() && !self.owned_by(d, player) && (knight || !self.is_square_attacked(
                d,
                player.opponent(),
            )) {
                out.push(Ply { origin, destination: d, promotion: None });
            }
            assert(out@ =~= old(out)@ + step_moves(self.view(), origin, player, knight, i + 1));
            i += 1;
        }
    }

    pub fn get_knight_moves(&self, origin: Coord, player: Player, out: &mut Vec<Ply>)
        requires
            self.wf(),
            on_board(origin),
        ensures
            final(out)@ == old(out)@ + step_moves(self.view(), origin, player, true, 8),
    {
        self.get_step_moves(origin, player, true, out)
    }

    pub fn get_king_moves(&self, origin: Coord, player: Player, out: &mut Vec<Ply>)
        requires
            self.wf(),
            on_board(origin),
        ensures
            final(out)@ == old(out)@ + step_moves(self.view(), origin, player, false, 8),
    {
        self.get_step_moves(origin, player, false, out)
    }

    /// The moves of a slider of `player` on `origin` along direction `d`.
    fn get_ray_moves(&self, origin: Coord, d: Coord, player: Player, out: &mut Vec<Ply>)
        requires
            self.wf(),
            on_board(origin),
            is_step(d),
        ensures
            final(out)@ == old(out)@ + ray_moves(self.view(), origin, origin, d, player, 8),
    {
        let ghost p = self.view();
        let mut c = origin;
        let mut k: usize = 0;
        while k < 8
            invariant
                self.wf(),
                p == self.view(),
                on_board(c),
                is_step(d),
                k <= 8,
                old(out)@ + ray_moves(p, origin, origin, d, player, 8) == out@ + ray_moves(
                    p,
                    origin,
                    c,
                    d,
                    player,
                    (8 - k) as nat,
                ),
            decreases 8 - k,
        {
            let n = c.add(d);
            if !n.is_valid() || self.owned_by(n, player) {
                assert(out@ + ray_moves(p, origin, c, d, player, (8 - k) as nat) =~= out@);
                return ;
            }
            let ghost before = out@;
            out.push(Ply { origin, destination: n, promotion: None });
            if self.owned_by(n, player.opponent()) {
                assert(before + ray_moves(p, origin, c, d, player, (8 - k) as nat) =~= out@);
                return ;
            }
            assert(before + ray_moves(p, origin, c, d, player, (8 - k) as nat) =~= out@ + ray_moves(
                p,
                origin,
                n,
                d,
                player,
                (8 - (k + 1)) as nat,
            ));
            c = n;
            k += 1;
        }
        assert(out@ + ray_moves(p, origin, c, d, player, 0) =~= out@);
    }

    /// The moves of a slider of `player` on `origin` along the directions
    /// `lo .. hi` of the queen table, those along `pin` only when it is given.
    pub fn get_queen_rook_bishop_moves(
        &self,
        origin: Coord,
        player: Player,
        lo: usize,
        hi: usize,
        pin: Option<Coord>,
        out: &mut Vec<Ply>,
    )
        requires
            self.wf(),
            on_board(origin),
            lo <= hi <= 8,
            pin matches Some(x) ==> is_step(x),
        ensures
            final(out)@ == old(out)@ + slide_moves(self.view(), origin, player, lo as int, hi as int, pin),
    {
        let mut i: usize = lo;
        while i < hi
            invariant
                self.wf(),
                on_board(origin),
                lo <= i <= hi <= 8,
                pin matches Some(x) ==> is_step(x),
                out@ == old(out)@ + slide_moves(self.view(), origin, player, lo as int, i as int, pin),
            decreases hi - i,
        {
            let d = Coord::any_dir(i);
            let allowed = match pin {
                Some(x) => d == x || d == x.neg(),
                None => true,
            };
            if allowed {
                self.get_ray_moves(origin, d, player, out);
            }
            assert(out@ =~= old(out)@ + slide_moves(
                self.view(),
                origin,
                player,
                lo as int,
                i + 1,
                pin,
            ));
            i += 1;
        }
    }

    pub fn get_pawn_moves(&self, origin: Coord, player: Player, out: &mut Vec<Ply>)
        requires
            self.wf(),
            on_board(origin),
        ensures
            final(out)@ == old(out)@ + pawn_pushes(self.view(), origin, player),
    {
        let dir = player.advancing_direction();
        let destination = origin.add(dir);
        if !destination.is_valid() || self.is_square_occupied(destination) {
            assert(out@ =~= old(out)@ + pawn_pushes(self.view(), origin, player));
            return ;
        }
        Board::push_pawn_plies(origin, destination, out);
        if origin.row == player.pawn_row() {
            let two = destination.add(dir);
            if !self.is_square_occupied(two) {
                out.push(Ply { origin, destination: two, promotion: None });
            }
        }
        assert(out@ =~= old(out)@ + pawn_pushes(self.view(), origin, player));
    }

    pub fn get_pawn_captures(&self, origin: Coord, player: Player, out: &mut Vec<Ply>)
        requires
            self.wf(),
            on_board(origin),
        ensures
            final(out)@ == old(out)@ + pawn_captures(self.view(), origin, player),
    {
        let mut i: usize = 0;
        while i < 2
            invariant
                self.wf(),
                on_board(origin),
                i <= 2,
                i == 0 ==> out@ == old(out)@,
                i == 1 ==> out@ == old(out)@ + capture_side(self.view(), origin, player, 0),
                i == 2 ==> out@ == old(out)@ + pawn_captures(self.view(), origin, player),
            decreases 2 - i,
        {
            let side = if i == 0 {
                Coord { row: 0, col: -1 }
            } else {
                Coord { row: 0, col: 1 }
            };
            let c = origin.add(side).add(player.advancing_direction());
            let ghost before = out@;
            if c.is_valid() && self.owned_by(c, player.opponent()) {
                Board::push_pawn_plies(origin, c, out);
            }
            assert(out@ =~= before + capture_side(self.view(), origin, player, i as int));
            assert(old(out)@ + capture_side(self.view(), origin, player, 0) + capture_side(
                self.view(),
                origin,
                player,
                1,
            ) =~= old(out)@ + pawn_captures(self.view(), origin, player));
            i += 1;
        }
    }

    pub fn get_pawn_en_passant(&self, origin: Coord, player: Player) -> (r: Option<Ply>)
        requires
            self.wf(),
            on_board(origin),
        ensures
            pawn_en_passant(self.view(), origin, player) == match r {
                Some(x) => seq![x],
                None => seq![],
            },
    {
        let en_passant_square = match self.en_passant_square {
            Some(e) => e,
            None => {
                return None;
            },
        };
        if origin.add(player.advancing_direction()).row != en_passant_square.row {
            return None;
        }
        if origin.col + 1 == en_passant_square.col || origin.col - 1 == en_passant_square.col {
            Some(Ply { origin, destination: en_passant_square, promotion: None })
        } else {
            None
        }
    }

    pub fn get_castling_moves(&self, origin: Coord, out: &mut Vec<Ply>)
        requires
            self.wf(),
            on_board(origin),
        ensures
            final(out)@ == old(out)@ + castling_moves(self.view(), origin),
    {
        let player = self.turn;
        let row = player.home_row();
        let op = player.opponent();
        let (oo, ooo) = match player {
            Player::White => (self.white_can_oo, self.white_can_ooo),
            Player::Black => (self.black_can_oo, self.black_can_ooo),
        };
        if origin.row != row || origin.col != 4 {
            assert(out@ =~= old(out)@ + castling_moves(self.view(), origin));
            return ;
        }
        if oo && !self.is_square_attacked(Coord { row, col: 4 }, op) && !self.is_square_attacked(
            Coord { row, col: 5 },
            op,
        ) && !self.is_square_attacked(Coord { row, col: 6 }, op) && !self.is_square_occupied(
            Coord { row, col: 5 },
        ) && !self.is_square_occupied(Coord { row, col: 6 }) {
            out.push(Ply { origin, destination: Coord { row, col: 6 }, promotion: None });
        }
        if ooo && !self.is_square_attacked(Coord { row, col: 4 }, op) && !self.is_square_attacked(
            Coord { row, col: 2 },
            op,
        ) && !self.is_square_attacked(Coord { row, col: 3 }, op) && !self.is_square_occupied(
            Coord { row, col: 1 },
        ) && !self.is_square_occupied(Coord { row, col: 2 }) && !self.is_square_occupied(
            Coord { row, col: 3 },
        ) {
            out.push(Ply { origin, destination: Coord { row, col: 2 }, promotion: None });
        }
        assert(out@ =~= old(out)@ + castling_moves(self.view(), origin));
    }

    /// The moves of the piece on `coord` by its movement rules alone.
    pub fn get_pseudo_legal_moves(&self, coord: Coord) -> (r: Vec<Ply>)
        requires
            self.wf(),
            on_board(coord),
        ensures
            r@ == pseudo_legal(self.view(), coord),
    {
        let mut out: Vec<Ply> = Vec::new();
        match self.get_piece_by_coord(coord) {
            None => {},
            Some(piece) => {
                let pl = piece.player;
                match piece.kind {
                    Kind::Pawn => {
                        self.get_pawn_moves(coord, pl, &mut out);
                        self.get_pawn_captures(coord, pl, &mut out);
                        if let Some(x) = self.get_pawn_en_passant(coord, pl) {
                            out.push(x);
                        }
                    },
                    Kind::Knight => self.get_knight_moves(coord, pl, &mut out),
                    Kind::Bishop => self.get_queen_rook_bishop_moves(coord, pl, 4, 8, None, &mut out),
                    Kind::Rook => self.get_queen_rook_bishop_moves(coord, pl, 0, 4, None, &mut out),
                    Kind::Queen => self.get_queen_rook_bishop_moves(coord, pl, 0, 8, None, &mut out),
                    Kind::King => {
                        self.get_king_moves(coord, pl, &mut out);
                        self.get_castling_moves(coord, &mut out);
                    },
                }
            },
        }
        assert(out@ =~= pseudo_legal(self.view(), coord));
        out
    }
}

} // verus!
