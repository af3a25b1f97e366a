use vstd::prelude::*;
use crate::attack::{attacked, attackers};
use crate::board::Position;
use crate::coord::{Coord, negate, on_board, plus, spec_any_dir};
use crate::legal::{all_moves, ep_pinned, legal_moves, pin_dir, status_of};
use crate::movegen::{
    capture_side, castling_moves, pseudo_legal, step_moves, capture_square, pawn_en_passant, pawn_moves, pawn_plies,
    pawn_pushes, plain, ray_moves, slide_moves,
};
use crate::piece::Kind;
use crate::player::{Player, spec_advance, spec_opponent};
use crate::ply::Ply;
use crate::shape::unit;
use crate::status::Status;

verus! {

/// `x` lies on the line through `o` along the direction `d`.
pub open spec fn on_axis(o: Coord, d: Coord, x: Coord) -> bool {
    if d.row == 0 {
        x.row == o.row
    } else if d.col == 0 {
        x.col == o.col
    } else if d.row == d.col {
        x.row - o.row == x.col - o.col
    } else {
        x.row - o.row == o.col - x.col
    }
}

pub open spec fn all_on_axis(s: Seq<Ply>, o: Coord, d: Coord) -> bool {
    forall|i: int| 0 <= i < s.len() ==> on_axis(o, d, (#[trigger] s[i]).destination)
}

proof fn lemma_ray_on_axis(p: Position, o: Coord, c: Coord, dd: Coord, pl: Player, fuel: nat, d: Coord)
    requires
        unit(d),
        dd == d || dd == negate(d),
        on_axis(o, d, c),
        on_board(c),
    ensures
        all_on_axis(ray_moves(p, o, c, dd, pl, fuel), o, d),
    decreases fuel,
{
    if fuel > 0 {
        let n = plus(c, dd);
        if on_board(n) {
            lemma_ray_on_axis(p, o, n, dd, pl, (fuel - 1) as nat, d);
            let rest = ray_moves(p, o, n, dd, pl, (fuel - 1) as nat);
            let all = seq![plain(o, n)] + rest;
            assert forall|i: int| 0 <= i < all.len() implies on_axis(o, d, (#[trigger] all[i]).destination) by {
                if i > 0 {
                    assert(all[i] == rest[i - 1]);
                }
            }
        }
    }
}

proof fn lemma_slide_on_axis(p: Position, o: Coord, pl: Player, lo: int, n: int, d: Coord)
    requires
        unit(d),
        on_board(o),
        0 <= lo,
        n <= 8,
    ensures
        all_on_axis(slide_moves(p, o, pl, lo, n, Some(d)), o, d),
    decreases n - lo,
{
    if n > lo {
        lemma_slide_on_axis(p, o, pl, lo, n - 1, d);
        let prev = slide_moves(p, o, pl, lo, n - 1, Some(d));
        let dir = spec_any_dir(n - 1);
        if dir == d || dir == negate(d) {
            lemma_ray_on_axis(p, o, o, dir, pl, 8, d);
            let ray = ray_moves(p, o, o, dir, pl, 8);
            assert forall|i: int| 0 <= i < (prev + ray).len() implies on_axis(
                o,
                d,
                (#[trigger] (prev + ray)[i]).destination,
            ) by {
                if i < prev.len() {
                    assert((prev + ray)[i] == prev[i]);
                } else {
                    assert((prev + ray)[i] == ray[i - prev.len()]);
                }
            }
        }
    }
}

/// A pinned piece moves only along the line of its pin: every legal
/// destination of a non-king piece pinned along `d` lies on the line through
/// it along `d`.
pub proof fn pinned_piece_stays_on_line(p: Position, o: Coord, k: Kind, pl: Player, d: Coord, m: Ply)
    requires
        on_board(o),
        p.at(o) == Some((k, pl)),
        pin_dir(p, o, pl, k) == Some(d),
        legal_moves(p, o).contains(m),
    ensures
        on_axis(o, d, m.destination),
{
    let checkers = attackers(p, p.king(p.turn), spec_opponent(p.turn));
    assert(unit(d));
    if checkers.len() == 0 {
        let legal = legal_moves(p, o);
        let i = choose|i: int| 0 <= i < legal.len() && legal[i] == m;
        match k {
            Kind::Pawn => {
                let targets = seq![plus(o, d), plus(plus(o, d), d)];
                let f = |x: Ply| targets.contains(x.destination);
                let s = pawn_moves(p, o, pl) + pawn_en_passant(p, o, pl);
                s.filter_lemma(f);
                assert(f(s.filter(f)[i]));
                assert(targets.contains(m.destination));
                assert(m.destination == targets[0] || m.destination == targets[1]);
            },
            Kind::Rook => {
                lemma_slide_on_axis(p, o, pl, 0, 4, d);
            },
            Kind::Bishop => {
                lemma_slide_on_axis(p, o, pl, 4, 8, d);
            },
            Kind::Queen => {
                lemma_slide_on_axis(p, o, pl, 0, 8, d);
            },
            _ => {},
        }
    }
}

/// In double check no piece but the king has a legal move.
pub proof fn double_check_leaves_only_king_moves(p: Position, o: Coord, k: Kind, pl: Player)
    requires
        p.at(o) == Some((k, pl)),
        k != Kind::King,
        attackers(p, p.king(p.turn), spec_opponent(p.turn)).len() >= 2,
    ensures
        legal_moves(p, o).len() == 0,
{
}

/// With no check and no ordinary pin, a pawn's en-passant capture onto an
/// empty target square is legal exactly when removing both pawns would not
/// expose its king.
pub proof fn en_passant_legal_iff_no_discovered_attack(p: Position, o: Coord, pl: Player, m: Ply)
    requires
        on_board(o),
        p.at(o) == Some((Kind::Pawn, pl)),
        attackers(p, p.king(p.turn), spec_opponent(p.turn)).len() == 0,
        pin_dir(p, o, pl, Kind::Pawn) is None,
        pawn_en_passant(p, o, pl) == seq![m],
        !p.occupied(m.destination),
    ensures
        legal_moves(p, o).contains(m) <==> !ep_pinned(p, o, pl, Kind::Pawn),
{
    let pm = pawn_moves(p, o, pl);
    let ep = pawn_en_passant(p, o, pl);
    let e = m.destination;
    assert(e.col == o.col + 1 || e.col == o.col - 1);
    if ep_pinned(p, o, pl, Kind::Pawn) {
        let pushes = pawn_pushes(p, o, pl);
        let c0 = capture_side(p, o, pl, 0);
        let c1 = capture_side(p, o, pl, 1);
        assert forall|i: int| 0 <= i < pushes.len() implies (#[trigger] pushes[i]).destination != e by {
            let d1 = plus(o, spec_advance(pl));
            let d2 = plus(d1, spec_advance(pl));
            if on_board(d1) && !p.occupied(d1) {
                if i < pawn_plies(o, d1).len() {
                    assert(pushes[i] == pawn_plies(o, d1)[i]);
                }
            }
        }
        assert forall|i: int| 0 <= i < c0.len() implies (#[trigger] c0[i]).destination != e by {
            assert(c0[i] == pawn_plies(o, capture_square(o, pl, 0))[i]);
        }
        assert forall|i: int| 0 <= i < c1.len() implies (#[trigger] c1[i]).destination != e by {
            assert(c1[i] == pawn_plies(o, capture_square(o, pl, 1))[i]);
        }
        assert forall|i: int| 0 <= i < pm.len() implies (#[trigger] pm[i]) != m by {
            if i < pushes.len() {
                assert(pm[i] == pushes[i]);
            } else if i < pushes.len() + c0.len() {
                assert(pm[i] == (c0 + c1)[i - pushes.len()]);
                assert(pm[i] == c0[i - pushes.len()]);
            } else {
                assert(pm[i] == (c0 + c1)[i - pushes.len()]);
                assert(pm[i] == c1[i - pushes.len() - c0.len()]);
            }
        }
        assert(legal_moves(p, o) == pm);
    } else {
        assert(legal_moves(p, o) == pm + ep);
        assert((pm + ep)[pm.len() as int] == m);
    }
}

/// The outcome of a position: fifty moves without a pawn move or capture is
/// a draw whatever the material; otherwise a side with no legal move has lost
/// when its king is attacked and drawn when it is not; with a legal move the
/// game goes on.
pub proof fn terminal_classification(p: Position)
    ensures
        p.clock >= 100 ==> status_of(p) == Status::Draw,
        p.clock < 100 && all_moves(p).len() == 0 && attacked(p, p.king(p.turn), spec_opponent(p.turn))
            ==> status_of(p) == (if p.turn == Player::White {
            Status::BWin
        } else {
            Status::WWin
        }),
        p.clock < 100 && all_moves(p).len() == 0 && !attacked(
            p,
            p.king(p.turn),
            spec_opponent(p.turn),
        ) ==> status_of(p) == Status::Draw,
        p.clock < 100 && all_moves(p).len() > 0 ==> status_of(p) == Status::Ongoing,
{
}

proof fn lemma_king_steps_safe(p: Position, o: Coord, pl: Player, n: int)
    ensures
        forall|i: int|
            0 <= i < step_moves(p, o, pl, false, n).len() ==> !attacked(
                p,
                (#[trigger] step_moves(p, o, pl, false, n)[i]).destination,
                spec_opponent(pl),
            ),
    decreases n,
{
    if n > 0 {
        lemma_king_steps_safe(p, o, pl, n - 1);
        let prev = step_moves(p, o, pl, false, n - 1);
        let cur = step_moves(p, o, pl, false, n);
        assert forall|i: int| 0 <= i < cur.len() implies !attacked(
            p,
            (#[trigger] cur[i]).destination,
            spec_opponent(pl),
        ) by {
            if i < prev.len() {
                assert(cur[i] == prev[i]);
            }
        }
    }
}

/// A king never steps onto a square that the other side attacks: every legal
/// destination of the king of the side to move is a square that no enemy
/// piece attacks in the position before the move, looking through the king.
pub proof fn king_moves_avoid_attacked_squares(p: Position, o: Coord, m: Ply)
    requires
        on_board(o),
        p.at(o) == Some((Kind::King, p.turn)),
        legal_moves(p, o).contains(m),
    ensures
        !attacked(p, m.destination, spec_opponent(p.turn)),
{
    let pl = p.turn;
    lemma_king_steps_safe(p, o, pl, 8);
    let steps = step_moves(p, o, pl, false, 8);
    let castles = castling_moves(p, o);
    let legal = legal_moves(p, o);
    let i = choose|i: int| 0 <= i < legal.len() && legal[i] == m;
    if legal != steps {
        assert(legal == steps + castles);
        if i >= steps.len() {
            assert(castles[i - steps.len()] == m);
        } else {
            assert(steps[i] == m);
        }
    } else {
        assert(steps[i] == m);
    }
}

} // verus!
