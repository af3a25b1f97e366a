use vstd::prelude::*;
use crate::attack::attacked;
use crate::board::{Board, Position};
use crate::legal::{all_moves, square_of};
use crate::piece::spec_value;
use crate::play::{play, playable};
use crate::player::{Player, spec_opponent};
use crate::ply::Ply;
use crate::shape::lemma_all_moves_playable;

verus! {

/// The score of a side that is checkmated.
pub const MATE: i32 = 1000000000;

/// The material of `pl` on the first `n` squares of the grid.
pub open spec fn material_upto(p: Position, pl: Player, n: int) -> int
    decreases n,
{
    if n <= 0 {
        0
    } else {
        material_upto(p, pl, n - 1) + match p.at(square_of(n - 1)) {
            Some((k, owner)) => if owner == pl {
                spec_value(k)
            } else {
                0
            },
            None => 0,
        }
    }
}

/// The material of `pl`: a hundred for a pawn, three hundred for a knight or
/// bishop, five hundred for a rook, nine hundred for a queen.
pub open spec fn material(p: Position, pl: Player) -> int {
    material_upto(p, pl, 64)
}

/// The material balance from the point of view of the side to move.
pub open spec fn evaluation(p: Position) -> int {
    let diff = material(p, Player::White) - material(p, Player::Black);
    match p.turn {
        Player::White => diff,
        Player::Black => -diff,
    }
}

/// The negamax value of `p` searched `depth` plies deep: the evaluation at
/// depth zero; with no legal move, minus `MATE` when in check and zero when
/// not; else the best of the children's values negated.
pub open spec fn search_value(p: Position, depth: nat) -> int
    decreases depth, 0nat,
{
    if depth == 0 {
        evaluation(p)
    } else if all_moves(p).len() == 0 {
        if attacked(p, p.king(p.turn), spec_opponent(p.turn)) {
            -MATE
        } else {
            0
        }
    } else {
        best_of(p, all_moves(p), (depth - 1) as nat, all_moves(p).len() as int)
    }
}

/// The best negated value over the positions after the first `n` plies of
/// `ms`, and never below minus `MATE`.
pub open spec fn best_of(p: Position, ms: Seq<Ply>, depth: nat, n: int) -> int
    decreases depth, n,
{
    if n <= 0 {
        -MATE
    } else {
        let prev = best_of(p, ms, depth, n - 1);
        let here = -search_value(play(p, ms[n - 1]), depth);
        if here > prev {
            here
        } else {
            prev
        }
    }
}

proof fn lemma_material_bounds(p: Position, pl: Player, n: int)
    requires
        n <= 64,
    ensures
        0 <= material_upto(p, pl, n) <= 900 * (if n < 0 { 0 } else { n }),
    decreases n,
{
    if n > 0 {
        lemma_material_bounds(p, pl, n - 1);
    }
}

proof fn lemma_search_bounds(p: Position, depth: nat)
    ensures
        -MATE <= search_value(p, depth) <= MATE,
    decreases depth, 0nat,
{
    if depth == 0 {
        lemma_material_bounds(p, Player::White, 64);
        lemma_material_bounds(p, Player::Black, 64);
    } else if all_moves(p).len() != 0 {
        lemma_best_bounds(p, all_moves(p), (depth - 1) as nat, all_moves(p).len() as int);
    }
}

proof fn lemma_best_bounds(p: Position, ms: Seq<Ply>, depth: nat, n: int)
    ensures
        -MATE <= best_of(p, ms, depth, n) <= MATE,
    decreases depth, n,
{
    if n > 0 {
        lemma_best_bounds(p, ms, depth, n - 1);
        lemma_search_bounds(play(p, ms[n - 1]), depth);
    }
}

fn count_material(board: &Board, player: Player) -> (r: i32)
    requires
        board.wf(),
    ensures
        r == material(board.view(), player),
{
    let mut result: i32 = 0;
    let mut i: usize = 0;
    while i < 64
        invariant
            board.wf(),
            i <= 64,
            result == material_upto(board.view(), player, i as int),
        decreases 64 - i,
    {
        proof {
            lemma_material_bounds(board.view(), player, i as int);
        }
        let c = crate::coord::Coord { row: (i / 8) as i32, col: (i % 8) as i32 };
        assert(c == square_of(i as int));
        if let Some(piece) = board.get_piece_by_coord(c) {
            if piece.player == player {
                result = result + piece.kind.value();
            }
        }
        i += 1;
    }
    result
}

/// The material balance, from the point of view of the side to move.
pub fn evaluate(board: Board) -> (r: i32)
    requires
        board.wf(),
    ensures
        r == evaluation(board.view()),
{
    proof {
        lemma_material_bounds(board.view(), Player::White, 64);
        lemma_material_bounds(board.view(), Player::Black, 64);
    }
    let white_eval = count_material(&board, Player::White);
    let black_eval = count_material(&board, Player::Black);
    match board.turn {
        Player::White => white_eval - black_eval,
        Player::Black => black_eval - white_eval,
    }
}

/// The negamax value of the position searched `depth` plies deep.
pub fn search(board: Board, depth: i32) -> (r: i32)
    requires
        board.wf(),
        depth >= 0,
        board.half_move_clock + depth <= u64::MAX,
    ensures
        r == search_value(board.view(), depth as nat),
        -MATE <= r <= MATE,
    decreases depth,
{
    proof {
        lemma_search_bounds(board.view(), depth as nat);
    }
    let ghost p = board.view();
    let move_vec = board.get_all_moves();
    if depth == 0 {
        return evaluate(board);
    }
    if move_vec.len() == 0 {
        let king = board.find_king(board.turn);
        if board.is_square_attacked(king, board.turn.opponent()) {
            return -MATE;
        }
        return 0;
    }
    proof {
        lemma_all_moves_playable(p, 64);
    }
    let mut best_evaluation: i32 = -MATE;
    let mut i: usize = 0;
    while i < move_vec.len()
        invariant
            board.wf(),
            p == board.view(),
            move_vec@ == all_moves(p),
            1 <= depth,
            board.half_move_clock + depth <= u64::MAX,
            i <= move_vec@.len(),
            forall|j: int| 0 <= j < move_vec@.len() ==> playable(p, #[trigger] move_vec@[j]),
            best_evaluation == best_of(p, move_vec@, (depth - 1) as nat, i as int),
        decreases move_vec@.len() - i,
    {
        proof {
            lemma_best_bounds(p, move_vec@, (depth - 1) as nat, i as int);
        }
        let new_board_state = board.make_move(move_vec[i]);
        let evaluation = -search(new_board_state, depth - 1);
        if evaluation > best_evaluation {
            best_evaluation = evaluation;
        }
        i += 1;
    }
    best_evaluation
}

} // verus!
