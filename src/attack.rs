use vstd::prelude::*;
use crate::board::{Board, Position};
use crate::coord::{Coord, is_step, mk, minus, on_board, plus, spec_any_dir, spec_knight};
use crate::piece::Kind;
use crate::player::{Player, spec_advance, spec_opponent};

verus! {

/// The first occupied square met when walking from `c` (not included) in
/// direction `d`, over at most `fuel` squares of the board, passing over the
/// square `skip` as if it were empty.
pub open spec fn ray_hit(p: Position, c: Coord, d: Coord, fuel: nat, skip: Option<Coord>) -> Option<
    Coord,
>
    decreases fuel,
{
    if fuel == 0 {
        None
    } else {
        let n = plus(c, d);
        if !on_board(n) {
            None
        } else if p.occupied(n) && skip != Some(n) {
            Some(n)
        } else {
            ray_hit(p, n, d, (fuel - 1) as nat, skip)
        }
    }
}

/// `p` holds a piece of this kind and owner on `c`.
pub open spec fn holds(p: Position, c: Coord, k: Kind, by: Player) -> bool {
    p.at(c) == Some((k, by))
}

/// The squares from which a piece of `by` could attack `s`, one for each way
/// of attacking: the four rook rays, the four bishop rays, the two pawn
/// squares, the eight knight squares and the eight king squares, in that order.
/// Slot `i` names the attacker it finds there, if any. Rays pass over `skip`.
pub open spec fn slot_attacker(p: Position, s: Coord, by: Player, i: int, skip: Option<Coord>) -> Option<
    Coord,
> {
    if i < 8 {
        let d = spec_any_dir(i);
        let k = if i < 4 { Kind::Rook } else { Kind::Bishop };
        match ray_hit(p, s, d, 8, skip) {
            Some(h) => if holds(p, h, k, by) || holds(p, h, Kind::Queen, by) {
                Some(h)
            } else {
                None
            },
            None => None,
        }
    } else {
        let c = if i < 10 {
            minus(plus(s, if i == 8 { mk(0, -1) } else { mk(0, 1) }), spec_advance(by))
        } else if i < 18 {
            plus(s, spec_knight(i - 10))
        } else {
            plus(s, spec_any_dir(i - 18))
        };
        let k = if i < 10 {
            Kind::Pawn
        } else if i < 18 {
            Kind::Knight
        } else {
            Kind::King
        };
        if holds(p, c, k, by) {
            Some(c)
        } else {
            None
        }
    }
}

/// Some piece of `by` attacks `s`. The rays pass over the king of the other
/// side, so that a king cannot step back along the line of a checking piece.
pub open spec fn attacked(p: Position, s: Coord, by: Player) -> bool {
    exists|i: int| 0 <= i < 26 && (#[trigger] slot_attacker(p, s, by, i, Some(p.king(spec_opponent(by))))) is Some
}

/// The attackers found in the first `n` slots, in slot order.
pub open spec fn attackers_upto(p: Position, s: Coord, by: Player, n: int) -> Seq<Coord>
    decreases n,
{
    if n <= 0 {
        seq![]
    } else {
        let prev = attackers_upto(p, s, by, n - 1);
        match slot_attacker(p, s, by, n - 1, None) {
            Some(c) => prev.push(c),
            None => prev,
        }
    }
}

/// Every piece of `by` that attacks `s`, in slot order.
pub open spec fn attackers(p: Position, s: Coord, by: Player) -> Seq<Coord> {
    attackers_upto(p, s, by, 26)
}

impl Board {
    /// The first occupied square from `from` in direction `d`, passing over
    /// `skip`.
    fn ray_first(&self, from: Coord, d: Coord, skip: Option<Coord>) -> (r: Option<Coord>)
        requires
            self.wf(),
            on_board(from),
            is_step(d),
        ensures
            r == ray_hit(self.view(), from, d, 8, skip),
    {
        let ghost p = self.view();
        let mut c = from;
        let mut k: usize = 0;
        while k < 8
            invariant
                self.wf(),
                p == self.view(),
                k <= 8,
                on_board(c),
                is_step(d),
                ray_hit(p, from, d, 8, skip) == ray_hit(p, c, d, (8 - k) as nat, skip),
            decreases 8 - k,
        {
            let n = c.add(d);
            if !n.is_valid() {
                return None;
            }
            let passed = match skip {
                Some(x) => x == n,
                None => false,
            };
            if self.is_square_occupied(n) && !passed {
                return Some(n);
            }
            c = n;
            k += 1;
        }
        None
    }

    fn holds_at(&self, c: Coord, k: Kind, by: Player) -> (r: bool)
        requires
            self.wf(),
        ensures
            r == holds(self.view(), c, k, by),
    {
        if c.is_valid() {
            match self.get_piece_by_coord(c) {
                Some(x) => x.kind == k && x.player == by,
                None => false,
            }
        } else {
            false
        }
    }

    /// What slot `i` of `slot_attacker` finds.
    fn slot(&self, s: Coord, by: Player, i: usize, skip: Option<Coord>) -> (r: Option<Coord>)
        requires
            self.wf(),
            on_board(s),
            i < 26,
        ensures
            r == slot_attacker(self.view(), s, by, i as int, skip),
    {
        if i < 8 {
            let d = Coord::any_dir(i);
            let k = if i < 4 {
                Kind::Rook
            } else {
                Kind::Bishop
            };
            match self.ray_first(s, d, skip) {
                Some(h) => if self.holds_at(h, k, by) || self.holds_at(h, Kind::Queen, by) {
                    Some(h)
                } else {
                    None
                },
                None => None,
            }
        } else {
            let c = if i < 10 {
                let side = if i == 8 {
                    Coord { row: 0, col: -1 }
                } else {
                    Coord { row: 0, col: 1 }
                };
                s.add(side).sub(by.advancing_direction())
            } else if i < 18 {
                s.add(Coord::knight(i - 10))
            } else {
                s.add(Coord::any_dir(i - 18))
            };
            let k = if i < 10 {
                Kind::Pawn
            } else if i < 18 {
                Kind::Knight
            } else {
                Kind::King
            };
            if self.holds_at(c, k, by) {
                Some(c)
            } else {
                None
            }
        }
    }

    /// Whether a piece of `by_player` attacks `origin`.
    pub fn is_square_attacked(&self, origin: Coord, by_player: Player) -> (r: bool)
        requires
            self.wf(),
            on_board(origin),
        ensures
            r == attacked(self.view(), origin, by_player),
    {
        let king_loc = self.find_king(by_player.opponent());
        let mut i: usize = 0;
        while i < 26
            invariant
                self.wf(),
                on_board(origin),
                king_loc == self.view().king(spec_opponent(by_player)),
                i <= 26,
                forall|j: int|
                    0 <= j < i ==> (#[trigger] slot_attacker(
                        self.view(),
                        origin,
                        by_player,
                        j,
                        Some(king_loc),
                    )) is None,
            decreases 26 - i,
        {
            if self.slot(origin, by_player, i, Some(king_loc)).is_some() {
                return true;
            }
            i += 1;
        }
        false
    }

    /// Every piece of `by_player` that attacks `origin`, by square.
    pub fn square_attacked_by_pieces(&self, origin: Coord, by_player: Player) -> (r: Vec<Coord>)
        requires
            self.wf(),
            on_board(origin),
        ensures
            r@ == attackers(self.view(), origin, by_player),
    {
        let mut results: Vec<Coord> = Vec::new();
        let mut i: usize = 0;
        while i < 26
            invariant
                self.wf(),
                on_board(origin),
                i <= 26,
                results@ == attackers_upto(self.view(), origin, by_player, i as int),
            decreases 26 - i,
        {
            if let Some(c) = self.slot(origin, by_player, i, None) {
                results.push(c);
            }
            i += 1;
        }
        results
    }
}

} // verus!
