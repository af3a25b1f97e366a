use vstd::prelude::*;
use crate::board::{Board, Position};
use crate::fen::{fen_reading, fen_safe, record_ok, record_position};
use crate::notation::{token_promotion, token_square};
use crate::ply::Ply;

verus! {

/// The FEN text of the starting position.
pub const START_FEN: &'static str = "rnbqkbnr/pppppppp/8/8/8/8/PPPPPPPP/RNBQKBNR w KQkq - 0 1";

/// The positions of a game so far, the current one last.
#[derive(Debug, Clone)]
pub struct Game {
    pub states: Vec<Board>,
}

/// The same position for the repetition rule: the same pieces on the same
/// squares, the same side to move, castling rights and en-passant target.
pub open spec fn repeats(a: Position, b: Position) -> bool {
    &&& a.grid == b.grid
    &&& a.turn == b.turn
    &&& a.white_oo == b.white_oo
    &&& a.white_ooo == b.white_ooo
    &&& a.black_oo == b.black_oo
    &&& a.black_ooo == b.black_ooo
    &&& a.en_passant == b.en_passant
}

/// Among the positions `n` and more plies before the last, going back two
/// plies at a time (the same side to move), how many repeat the last one.
pub open spec fn repetitions_from(s: Seq<Position>, n: int) -> int
    decreases s.len() + 2 - n,
{
    if n < 0 || n >= s.len() {
        0
    } else {
        (if repeats(s[s.len() - 1 - n], s.last()) {
            1int
        } else {
            0
        }) + repetitions_from(s, n + 2)
    }
}

/// The ply that move text names: two square tokens and an optional
/// promotion token, which is ignored when it names no kind.
pub open spec fn tokens_ply(origin: Seq<char>, destination: Seq<char>, promotion: Option<Seq<char>>) -> Option<Ply> {
    match (token_square(origin), token_square(destination)) {
        (Some(o), Some(d)) => Some(
            Ply {
                origin: o,
                destination: d,
                promotion: match promotion {
                    Some(t) => token_promotion(t),
                    None => None,
                },
            },
        ),
        _ => None,
    }
}

impl Game {
    pub open spec fn views(self) -> Seq<Position> {
        self.states@.map_values(|b: Board| b.view())
    }

    pub open spec fn wf(self) -> bool {
        forall|i: int| 0 <= i < self.states@.len() ==> (#[trigger] self.states@[i]).wf()
    }

    /// A game from the starting position.
    pub fn new() -> (r: Option<Game>)
        ensures
            r is Some <==> fen_safe(START_FEN) && (fen_reading(START_FEN@) matches Some(rec)
                && record_ok(rec)),
            r matches Some(g) ==> g.wf() && g.states@.len() == 1 && (fen_reading(START_FEN@) matches Some(
                rec,
            ) && g.views()[0] == record_position(rec)),
    {
        Game::new_from_fen(START_FEN)
    }

    /// A game from the position a FEN text describes.
    pub fn new_from_fen(fen: &str) -> (r: Option<Game>)
        ensures
            r is Some <==> fen_safe(fen) && (fen_reading(fen@) matches Some(rec) && record_ok(rec)),
            r matches Some(g) ==> g.wf() && g.states@.len() == 1 && (fen_reading(fen@) matches Some(
                rec,
            ) && g.views()[0] == record_position(rec)),
    {
        match Board::new_from_fen(fen) {
            Some(b) => {
                let mut states: Vec<Board> = Vec::new();
                states.push(b);
                let g = Game { states };
                assert(g.views()[0] == g.states@[0].view());
                Some(g)
            },
            None => None,
        }
    }

    /// The ply that move text names, from its tokens.
    pub fn ply_from_tokens(origin: &[char], destination: &[char], promotion: Option<&[char]>) -> (r: Option<Ply>)
        ensures
            r == tokens_ply(
                origin@,
                destination@,
                match promotion {
                    Some(t) => Some(t@),
                    None => None,
                },
            ),
    {
        let o = Board::parse_coord(origin)?;
        let d = Board::parse_coord(destination)?;
        let promo = match promotion {
            Some(t) => Board::parse_promotion(t),
            None => None,
        };
        Some(Ply { origin: o, destination: d, promotion: promo })
    }

    /// Whether the current position has now occurred three times with the
    /// same side to move.
    pub fn verify_threefold_repetition(&self) -> (r: bool)
        requires
            self.wf(),
        ensures
            r == (self.states@.len() > 0 && repetitions_from(self.views(), 0) >= 3),
    {
        let len = self.states.len();
        if len == 0 {
            return false;
        }
        let current = &self.states[len - 1];
        let ghost v = self.views();
        let mut count: u64 = 0;
        let mut n: usize = 0;
        while n < len
            invariant
                self.wf(),
                v == self.views(),
                len == self.states@.len(),
                len > 0,
                *current == self.states@[len - 1],
                n <= len,
                count <= n,
                count + repetitions_from(v, n as int) == repetitions_from(v, 0),
            decreases len - n,
        {
            assert(v[len - 1 - n] == self.states@[len - 1 - n].view());
            assert(v.last() == current.view());
            assert(repetitions_from(v, n + 2) == 0 || len - n > 2);
            assert(repetitions_from(v, len as int) == 0);
            if self.states[len - 1 - n].same_position(current) {
                count = count + 1;
            }
            if len - n > 2 {
                n = n + 2;
            } else {
                n = len;
            }
        }
        count >= 3
    }
}

impl Board {
    /// Whether two boards hold the same position for the repetition rule.
    pub fn same_position(&self, other: &Board) -> (r: bool)
        requires
            self.wf(),
            other.wf(),
        ensures
            r == repeats(self.view(), other.view()),
    {
        if self.turn != other.turn || self.white_can_oo != other.white_can_oo || self.white_can_ooo
            != other.white_can_ooo || self.black_can_oo != other.black_can_oo || self.black_can_ooo
            != other.black_can_ooo || self.en_passant_square != other.en_passant_square {
            return false;
        }
        let mut i: usize = 0;
        while i < 64
            invariant
                self.wf(),
                other.wf(),
                i <= 64,
                forall|j: int| 0 <= j < i ==> self.view().grid[j] == other.view().grid[j],
            decreases 64 - i,
        {
            let a = self.board[i];
            let b = other.board[i];
            let same = match (a, b) {
                (Some(x), Some(y)) => x.kind == y.kind && x.player == y.player,
                (None, None) => true,
                _ => false,
            };
            if !same {
                assert(self.view().grid[i as int] != other.view().grid[i as int]);
                return false;
            }
            i += 1;
        }
        assert(self.view().grid =~= other.view().grid);
        true
    }
}

} // verus!
