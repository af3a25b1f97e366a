use vstd::prelude::*;
use crate::board::{Board, Position};
use crate::legal::all_moves;
use crate::play::play;
use crate::ply::Ply;
use crate::shape::lemma_all_moves_playable;

verus! {

/// The number of move sequences of exactly `depth` plies from `p`.
pub open spec fn perft_count(p: Position, depth: nat) -> nat
    decreases depth, 0nat,
{
    if depth == 0 {
        1
    } else {
        children_count(p, all_moves(p), (depth - 1) as nat, all_moves(p).len() as int)
    }
}

/// The sum of `perft_count` at `depth` over the positions after the first `n`
/// plies of `ms`.
pub open spec fn children_count(p: Position, ms: Seq<Ply>, depth: nat, n: int) -> nat
    decreases depth, n,
{
    if n <= 0 {
        0
    } else {
        children_count(p, ms, depth, n - 1) + perft_count(play(p, ms[n - 1]), depth)
    }
}

proof fn lemma_children_monotone(p: Position, ms: Seq<Ply>, depth: nat, n: int, m: int)
    requires
        n <= m,
    ensures
        children_count(p, ms, depth, n) <= children_count(p, ms, depth, m),
    decreases m - n,
{
    if n < m {
        lemma_children_monotone(p, ms, depth, n, m - 1);
    }
}

/// The number of positions reached in exactly `depth` plies: at depth one,
/// the number of legal moves.
pub fn perft(board: &Board, depth: u32) -> (r: u64)
    requires
        board.wf(),
        board.half_move_clock + depth <= u64::MAX,
        perft_count(board.view(), depth as nat) <= u64::MAX,
    ensures
        r == perft_count(board.view(), depth as nat),
        depth == 1 ==> r == all_moves(board.view()).len(),
    decreases depth,
{
    if depth == 0 {
        return 1;
    }
    let ghost p = board.view();
    let moves = board.get_all_moves();
    proof {
        lemma_all_moves_playable(p, 64);
        lemma_children_monotone(p, moves@, (depth - 1) as nat, 0, moves@.len() as int);
    }
    let mut total: u64 = 0;
    let mut i: usize = 0;
    while i < moves.len()
        invariant
            board.wf(),
            p == board.view(),
            moves@ == all_moves(p),
            1 <= depth,
            board.half_move_clock + depth <= u64::MAX,
            perft_count(p, depth as nat) <= u64::MAX,
            i <= moves@.len(),
            forall|j: int| 0 <= j < moves@.len() ==> crate::play::playable(p, #[trigger] moves@[j]),
            total == children_count(p, moves@, (depth - 1) as nat, i as int),
        decreases moves@.len() - i,
    {
        let child = board.make_move(moves[i]);
        proof {
            lemma_children_monotone(p, moves@, (depth - 1) as nat, i + 1, moves@.len() as int);
        }
        let n = perft(&child, depth - 1);
        total = total + n;
        i += 1;
    }
    proof {
        if depth == 1 {
            lemma_depth_one(p, moves@, moves@.len() as int);
        }
    }
    total
}

proof fn lemma_depth_one(p: Position, ms: Seq<Ply>, n: int)
    requires
        0 <= n,
    ensures
        children_count(p, ms, 0, n) == n,
    decreases n,
{
    if n > 0 {
        lemma_depth_one(p, ms, n - 1);
        assert(perft_count(play(p, ms[n - 1]), 0) == 1);
    }
}

/// Counting positions one ply deep counts the legal moves of the side to
/// move.
pub proof fn perft_one_counts_moves(p: Position)
    ensures
        perft_count(p, 1) == all_moves(p).len(),
{
    lemma_depth_one(p, all_moves(p), all_moves(p).len() as int);
}

} // verus!
