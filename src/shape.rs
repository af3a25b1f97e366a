use vstd::prelude::*;
use crate::board::Position;
use crate::coord::{Coord, on_board, plus, spec_any_dir};
use crate::legal::{all_moves_upto, check_targets, legal_moves, pin_dir, square_of};
use crate::movegen::{
    capture_side, castling_moves, pawn_captures, pawn_en_passant, pawn_moves, pawn_plies,
    pawn_pushes, pseudo_legal, ray_moves, slide_moves, step_moves,
};
use crate::piece::Kind;
use crate::play::playable;
use crate::player::Player;
use crate::ply::Ply;

verus! {

/// `m` moves the piece on `o` to another square of the board, promoting to
/// anything but a king.
pub open spec fn leaves(m: Ply, o: Coord) -> bool {
    &&& m.origin == o
    &&& on_board(m.destination)
    &&& m.destination != o
    &&& m.promotion != Some(Kind::King)
}

pub open spec fn all_leave(s: Seq<Ply>, o: Coord) -> bool {
    forall|i: int| 0 <= i < s.len() ==> leaves(#[trigger] s[i], o)
}

/// A direction of the queen table.
pub open spec fn unit(d: Coord) -> bool {
    -1 <= d.row <= 1 && -1 <= d.col <= 1 && (d.row != 0 || d.col != 0)
}

/// How far `c` lies beyond `o` in direction `d`, counted along each axis.
pub open spec fn ahead(o: Coord, c: Coord, d: Coord) -> int {
    (if d.row > 0 {
        c.row - o.row
    } else if d.row < 0 {
        o.row - c.row
    } else {
        0
    }) + (if d.col > 0 {
        c.col - o.col
    } else if d.col < 0 {
        o.col - c.col
    } else {
        0
    })
}

proof fn lemma_concat_leave(a: Seq<Ply>, b: Seq<Ply>, o: Coord)
    requires
        all_leave(a, o),
        all_leave(b, o),
    ensures
        all_leave(a + b, o),
{
    assert forall|i: int| 0 <= i < (a + b).len() implies leaves(#[trigger] (a + b)[i], o) by {
        if i < a.len() {
            assert((a + b)[i] == a[i]);
        } else {
            assert((a + b)[i] == b[i - a.len()]);
        }
    }
}

proof fn lemma_filter_leave(s: Seq<Ply>, f: spec_fn(Ply) -> bool, o: Coord)
    requires
        all_leave(s, o),
    ensures
        all_leave(s.filter(f), o),
    decreases s.len(),
{
    reveal(Seq::filter);
    if s.len() > 0 {
        lemma_filter_leave(s.drop_last(), f, o);
        assert(all_leave(s.drop_last(), o)) by {
            assert forall|i: int| 0 <= i < s.drop_last().len() implies leaves(
                #[trigger] s.drop_last()[i],
                o,
            ) by {
                assert(s.drop_last()[i] == s[i]);
            }
        }
        let sub = s.drop_last().filter(f);
        if f(s.last()) {
            assert(leaves(s.last(), o));
            assert forall|i: int| 0 <= i < sub.push(s.last()).len() implies leaves(
                #[trigger] sub.push(s.last())[i],
                o,
            ) by {
                if i < sub.len() {
                    assert(sub.push(s.last())[i] == sub[i]);
                }
            }
        }
    }
}

proof fn lemma_steps_leave(p: Position, o: Coord, pl: Player, knight: bool, n: int)
    requires
        on_board(o),
    ensures
        all_leave(step_moves(p, o, pl, knight, n), o),
    decreases n,
{
    if n > 0 {
        lemma_steps_leave(p, o, pl, knight, n - 1);
        let prev = step_moves(p, o, pl, knight, n - 1);
        assert forall|i: int| 0 <= i < step_moves(p, o, pl, knight, n).len() implies leaves(
            #[trigger] step_moves(p, o, pl, knight, n)[i],
            o,
        ) by {
            if i < prev.len() {
                assert(step_moves(p, o, pl, knight, n)[i] == prev[i]);
            }
        }
    }
}

proof fn lemma_ray_leave(p: Position, o: Coord, c: Coord, d: Coord, pl: Player, fuel: nat)
    requires
        on_board(o),
        on_board(c),
        unit(d),
        ahead(o, c, d) >= 0,
    ensures
        all_leave(ray_moves(p, o, c, d, pl, fuel), o),
    decreases fuel,
{
    if fuel > 0 {
        let n = plus(c, d);
        if on_board(n) {
            assert(ahead(o, n, d) > 0);
            assert(n != o);
            lemma_ray_leave(p, o, n, d, pl, (fuel - 1) as nat);
            let rest = ray_moves(p, o, n, d, pl, (fuel - 1) as nat);
            lemma_concat_leave(seq![crate::movegen::plain(o, n)], rest, o);
        }
    }
}

proof fn lemma_slide_leave(p: Position, o: Coord, pl: Player, lo: int, n: int, pin: Option<Coord>)
    requires
        on_board(o),
        0 <= lo,
        n <= 8,
    ensures
        all_leave(slide_moves(p, o, pl, lo, n, pin), o),
    decreases n - lo,
{
    if n > lo {
        lemma_slide_leave(p, o, pl, lo, n - 1, pin);
        lemma_ray_leave(p, o, o, spec_any_dir(n - 1), pl, 8);
        lemma_concat_leave(
            slide_moves(p, o, pl, lo, n - 1, pin),
            ray_moves(p, o, o, spec_any_dir(n - 1), pl, 8),
            o,
        );
    }
}

proof fn lemma_pawn_plies_leave(o: Coord, d: Coord)
    requires
        on_board(d),
        d != o,
    ensures
        all_leave(pawn_plies(o, d), o),
{
}

proof fn lemma_pawn_leave(p: Position, o: Coord, pl: Player)
    requires
        on_board(o),
        p.en_passant matches Some(e) ==> on_board(e),
    ensures
        all_leave(pawn_moves(p, o, pl), o),
        all_leave(pawn_en_passant(p, o, pl), o),
{
    let d1 = plus(o, crate::player::spec_advance(pl));
    if on_board(d1) && !p.occupied(d1) {
        lemma_pawn_plies_leave(o, d1);
        let d2 = plus(d1, crate::player::spec_advance(pl));
        if o.row == crate::player::spec_pawn_row(pl) && !p.occupied(d2) {
            let s = pawn_plies(o, d1);
            assert forall|i: int| 0 <= i < s.push(crate::movegen::plain(o, d2)).len() implies leaves(
                #[trigger] s.push(crate::movegen::plain(o, d2))[i],
                o,
            ) by {
                if i < s.len() {
                    assert(s.push(crate::movegen::plain(o, d2))[i] == s[i]);
                }
            }
        }
    }
    assert(all_leave(pawn_pushes(p, o, pl), o));
    let c0 = crate::movegen::capture_square(o, pl, 0);
    let c1 = crate::movegen::capture_square(o, pl, 1);
    if on_board(c0) {
        lemma_pawn_plies_leave(o, c0);
    }
    if on_board(c1) {
        lemma_pawn_plies_leave(o, c1);
    }
    assert(all_leave(capture_side(p, o, pl, 0), o));
    assert(all_leave(capture_side(p, o, pl, 1), o));
    lemma_concat_leave(capture_side(p, o, pl, 0), capture_side(p, o, pl, 1), o);
    lemma_concat_leave(pawn_pushes(p, o, pl), pawn_captures(p, o, pl), o);
}

proof fn lemma_pseudo_leave(p: Position, o: Coord)
    requires
        on_board(o),
        p.en_passant matches Some(e) ==> on_board(e),
    ensures
        all_leave(pseudo_legal(p, o), o),
{
    match p.at(o) {
        None => {},
        Some((k, pl)) => {
            lemma_pawn_leave(p, o, pl);
            lemma_steps_leave(p, o, pl, true, 8);
            lemma_steps_leave(p, o, pl, false, 8);
            lemma_slide_leave(p, o, pl, 4, 8, None);
            lemma_slide_leave(p, o, pl, 0, 4, None);
            lemma_slide_leave(p, o, pl, 0, 8, None);
            lemma_concat_leave(pawn_moves(p, o, pl), pawn_en_passant(p, o, pl), o);
            assert(all_leave(castling_moves(p, o), o));
            lemma_concat_leave(step_moves(p, o, pl, false, 8), castling_moves(p, o), o);
        },
    }
}

/// Every legal move of the piece on `o` moves it to another square of the
/// board, promoting to anything but a king.
pub proof fn lemma_legal_leave(p: Position, o: Coord)
    requires
        on_board(o),
        p.en_passant matches Some(e) ==> on_board(e),
    ensures
        all_leave(legal_moves(p, o), o),
{
    match p.at(o) {
        None => {},
        Some((k, pl)) => {
            lemma_pseudo_leave(p, o);
            lemma_pawn_leave(p, o, pl);
            lemma_steps_leave(p, o, pl, false, 8);
            let checkers = crate::attack::attackers(p, p.king(p.turn), crate::player::spec_opponent(p.turn));
            if checkers.len() == 1 {
                lemma_filter_leave(
                    pseudo_legal(p, o),
                    |m: Ply| check_targets(p, checkers[0], k).contains(m.destination),
                    o,
                );
            }
            match pin_dir(p, o, pl, k) {
                Some(d) => {
                    lemma_slide_leave(p, o, pl, 4, 8, Some(d));
                    lemma_slide_leave(p, o, pl, 0, 4, Some(d));
                    lemma_slide_leave(p, o, pl, 0, 8, Some(d));
                    lemma_concat_leave(pawn_moves(p, o, pl), pawn_en_passant(p, o, pl), o);
                    lemma_filter_leave(
                        pawn_moves(p, o, pl) + pawn_en_passant(p, o, pl),
                        |m: Ply| seq![plus(o, d), plus(plus(o, d), d)].contains(m.destination),
                        o,
                    );
                },
                None => {},
            }
        },
    }
}

/// Every move that the generator gives for the side to move can be played.
pub proof fn lemma_all_moves_playable(p: Position, n: int)
    requires
        p.en_passant matches Some(e) ==> on_board(e),
        n <= 64,
    ensures
        forall|i: int|
            0 <= i < all_moves_upto(p, n).len() ==> playable(p, #[trigger] all_moves_upto(p, n)[i]),
    decreases n,
{
    if n > 0 {
        lemma_all_moves_playable(p, n - 1);
        let prev = all_moves_upto(p, n - 1);
        let o = square_of(n - 1);
        if p.owner(o) == Some(p.turn) {
            lemma_legal_leave(p, o);
            let cur = legal_moves(p, o);
            assert forall|i: int| 0 <= i < (prev + cur).len() implies playable(p, #[trigger] (prev + cur)[i]) by {
                if i < prev.len() {
                    assert((prev + cur)[i] == prev[i]);
                } else {
                    assert((prev + cur)[i] == cur[i - prev.len()]);
                    assert(leaves(cur[i - prev.len()], o));
                }
            }
        }
    }
}

} // verus!
