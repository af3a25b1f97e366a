use vstd::prelude::*;
use crate::attack::{attacked, attackers, attackers_upto, slot_attacker};
use crate::board::{Board, Position};
use crate::coord::{Coord, is_diagonal, is_step, mk, on_board, plus, spec_dir_between};
use crate::movegen::{pawn_en_passant, pawn_moves, pseudo_legal, slide_moves, step_moves};
use crate::piece::{Kind, Piece};
use crate::player::{Player, spec_advance, spec_opponent};
use crate::ply::Ply;
use crate::status::Status;

verus! {

/// The kind that pins along direction `d`, besides the queen.
pub open spec fn pinning_kind(d: Coord) -> Kind {
    if is_diagonal(d) {
        Kind::Bishop
    } else {
        Kind::Rook
    }
}

/// Beyond `c` in direction `d`, passing over `skip`, the first piece is an
/// enemy of `owner` that moves along `d`.
pub open spec fn pinner_beyond(p: Position, c: Coord, d: Coord, owner: Player, skip: Option<Coord>, fuel: nat) -> bool
    decreases fuel,
{
    if fuel == 0 {
        false
    } else {
        let n = plus(c, d);
        if skip == Some(n) {
            pinner_beyond(p, n, d, owner, skip, (fuel - 1) as nat)
        } else if !on_board(n) {
            false
        } else {
            match p.at(n) {
                Some((k, pl)) => pl != owner && (k == pinning_kind(d) || k == Kind::Queen),
                None => pinner_beyond(p, n, d, owner, skip, (fuel - 1) as nat),
            }
        }
    }
}

/// Walking from `c` in direction `d`, passing over `skip`, the first piece is
/// the one on `target`, and an enemy slider stands behind it on that line.
pub open spec fn pin_line(p: Position, c: Coord, d: Coord, target: Coord, owner: Player, skip: Option<Coord>, fuel: nat) -> bool
    decreases fuel,
{
    if fuel == 0 {
        false
    } else {
        let n = plus(c, d);
        if skip == Some(n) {
            pin_line(p, n, d, target, owner, skip, (fuel - 1) as nat)
        } else if !on_board(n) {
            false
        } else if n == target {
            pinner_beyond(p, target, d, owner, skip, 7)
        } else if p.occupied(n) {
            false
        } else {
            pin_line(p, n, d, target, owner, skip, (fuel - 1) as nat)
        }
    }
}

/// The direction, from its king, along which the non-king piece of `owner` on
/// `c` is pinned; none if it is not pinned.
pub open spec fn pin_dir(p: Position, c: Coord, owner: Player, k: Kind) -> Option<Coord> {
    let d = spec_dir_between(c, p.king(owner));
    if k != Kind::King && pin_line(p, p.king(owner), d, c, owner, None, 7) {
        Some(d)
    } else {
        None
    }
}

/// The pawn of `owner` on `c` may not capture en passant: with it and the
/// pawn it would take both gone, an enemy slider would see its king.
pub open spec fn ep_pinned(p: Position, c: Coord, owner: Player, k: Kind) -> bool {
    match p.en_passant {
        Some(e) => k == Kind::Pawn && pin_line(
            p,
            p.king(owner),
            spec_dir_between(c, p.king(owner)),
            c,
            owner,
            Some(plus(e, spec_advance(spec_opponent(owner)))),
            7,
        ),
        None => false,
    }
}

/// The squares from `c` onward in direction `d` up to and including `target`.
pub open spec fn segment(c: Coord, d: Coord, target: Coord, fuel: nat) -> Seq<Coord>
    decreases fuel,
{
    if fuel == 0 {
        seq![]
    } else {
        let n = plus(c, d);
        if n == target {
            seq![n]
        } else {
            seq![n] + segment(n, d, target, (fuel - 1) as nat)
        }
    }
}

/// The plies of `s` that end on one of `targets`.
pub open spec fn ending_on(s: Seq<Ply>, targets: Seq<Coord>) -> Seq<Ply> {
    s.filter(|m: Ply| targets.contains(m.destination))
}

/// The squares on which a piece of the side in check may land to end a check
/// given by the single piece on `ch`, for a piece that moves `kind`: the
/// checker's square, the en-passant target when a pawn can take the checking
/// pawn that way, and the squares between a checking slider and the king.
pub open spec fn check_targets(p: Position, ch: Coord, kind: Kind) -> Seq<Coord> {
    let kl = p.king(p.turn);
    match p.at(ch) {
        Some((Kind::Pawn, cpl)) => match p.en_passant {
            Some(e) => if ch == plus(e, spec_advance(cpl)) && kind == Kind::Pawn {
                seq![ch, e]
            } else {
                seq![ch]
            },
            None => seq![ch],
        },
        Some((Kind::Knight, _)) => seq![ch],
        Some((Kind::King, _)) => seq![],
        Some(_) => segment(kl, spec_dir_between(ch, kl), ch, 7),
        None => seq![],
    }
}

/// The legal moves of the piece on `o`. With its side in check from one
/// piece, a king steps out and another piece, if not pinned, must take the
/// checker or block its line; in double check only the king moves. Otherwise
/// a pinned piece stays on the line of its pin, and a pawn whose en-passant
/// capture would bare its king on the rank keeps its other moves only.
pub open spec fn legal_moves(p: Position, o: Coord) -> Seq<Ply> {
    match p.at(o) {
        None => seq![],
        Some((k, pl)) => {
            let checkers = attackers(p, p.king(p.turn), spec_opponent(p.turn));
            if checkers.len() == 1 {
                if k == Kind::King {
                    step_moves(p, o, pl, false, 8)
                } else if pin_dir(p, o, pl, k) is Some {
                    seq![]
                } else {
                    ending_on(pseudo_legal(p, o), check_targets(p, checkers[0], k))
                }
            } else if checkers.len() >= 2 {
                if k == Kind::King {
                    step_moves(p, o, pl, false, 8)
                } else {
                    seq![]
                }
            } else {
                match pin_dir(p, o, pl, k) {
                    Some(d) => match k {
                        Kind::Pawn => ending_on(
                            pawn_moves(p, o, pl) + pawn_en_passant(p, o, pl),
                            seq![plus(o, d), plus(plus(o, d), d)],
                        ),
                        Kind::Rook => slide_moves(p, o, pl, 0, 4, Some(d)),
                        Kind::Bishop => slide_moves(p, o, pl, 4, 8, Some(d)),
                        Kind::Queen => slide_moves(p, o, pl, 0, 8, Some(d)),
                        _ => seq![],
                    },
                    None => if ep_pinned(p, o, pl, k) {
                        pawn_moves(p, o, pl)
                    } else {
                        pseudo_legal(p, o)
                    },
                }
            }
        },
    }
}

/// The square of grid index `i`.
pub open spec fn square_of(i: int) -> Coord {
    mk(i / 8, i % 8)
}

/// The legal moves of the side to move from the first `n` squares, in grid
/// order.
pub open spec fn all_moves_upto(p: Position, n: int) -> Seq<Ply>
    decreases n,
{
    if n <= 0 {
        seq![]
    } else {
        let prev = all_moves_upto(p, n - 1);
        if p.owner(square_of(n - 1)) == Some(p.turn) {
            prev + legal_moves(p, square_of(n - 1))
        } else {
            prev
        }
    }
}

/// Every legal move of the side to move.
pub open spec fn all_moves(p: Position) -> Seq<Ply> {
    all_moves_upto(p, 64)
}

/// The outcome: a draw once a hundred plies have passed without a pawn move
/// or capture; else the game goes on while the side to move has a move; else
/// a draw if its king is not attacked (stalemate), and a win for the other
/// side if it is (checkmate).
pub open spec fn status_of(p: Position) -> Status {
    if p.clock >= 100 {
        Status::Draw
    } else if all_moves(p).len() > 0 {
        Status::Ongoing
    } else if !attacked(p, p.king(p.turn), spec_opponent(p.turn)) {
        Status::Draw
    } else {
        match p.turn {
            Player::Black => Status::WWin,
            Player::White => Status::BWin,
        }
    }
}

proof fn lemma_filter_step(s: Seq<Ply>, i: int, f: spec_fn(Ply) -> bool)
    requires
        0 <= i < s.len(),
    ensures
        s.take(i + 1).filter(f) == if f(s[i]) {
            s.take(i).filter(f).push(s[i])
        } else {
            s.take(i).filter(f)
        },
{
    reveal(Seq::filter);
    assert(s.take(i + 1).drop_last() =~= s.take(i));
}

fn contains_coord(v: &Vec<Coord>, c: Coord) -> (r: bool)
    ensures
        r == v@.contains(c),
{
    let mut i: usize = 0;
    while i < v.len()
        invariant
            i <= v@.len(),
            forall|j: int| 0 <= j < i ==> v@[j] != c,
        decreases v@.len() - i,
    {
        if v[i] == c {
            return true;
        }
        i += 1;
    }
    false
}

/// The plies of `moves` that end on one of `targets`.
fn keep_destinations(moves: Vec<Ply>, targets: &Vec<Coord>) -> (r: Vec<Ply>)
    ensures
        r@ == ending_on(moves@, targets@),
{
    let ghost f = |m: Ply| targets@.contains(m.destination);
    let mut out: Vec<Ply> = Vec::new();
    let mut i: usize = 0;
    while i < moves.len()
        invariant
            i <= moves@.len(),
            f == (|m: Ply| targets@.contains(m.destination)),
            out@ == moves@.take(i as int).filter(f),
        decreases moves@.len() - i,
    {
        proof {
            lemma_filter_step(moves@, i as int, f);
        }
        if contains_coord(targets, moves[i].destination) {
            out.push(moves[i]);
        }
        i += 1;
    }
    assert(moves@.take(moves@.len() as int) =~= moves@);
    out
}

impl Board {
    /// Whether the walk from `from` along `d` meets first the piece on
    /// `target`, then an enemy slider on the same line, passing over `skip`.
    fn pin_walk(&self, from: Coord, d: Coord, target: Coord, owner: Player, skip: Option<Coord>) -> (r: bool)
        requires
            self.wf(),
            on_board(from),
            on_board(target),
            is_step(d),
        ensures
            r == pin_line(self.view(), from, d, target, owner, skip, 7),
    {
        let ghost p = self.view();
        let mut c = from;
        let mut i: usize = 0;
        while i < 7
            invariant
                self.wf(),
                p == self.view(),
                is_step(d),
                on_board(target),
                i <= 7,
                on_board(from),
                on_board(from),
            from.row - 2 * i <= c.row <= from.row + 2 * i,
                from.col - 2 * i <= c.col <= from.col + 2 * i,
                pin_line(p, from, d, target, owner, skip, 7) == pin_line(
                    p,
                    c,
                    d,
                    target,
                    owner,
                    skip,
                    (7 - i) as nat,
                ),
            decreases 7 - i,
        {
            let n = c.add(d);
            let passed = match skip {
                Some(x) => x == n,
                None => false,
            };
            if !passed {
                if !n.is_valid() {
                    return false;
                }
                if n == target {
                    return self.pinner_walk(target, d, owner, skip);
                }
                if self.is_square_occupied(n) {
                    return false;
                }
            }
            c = n;
            i += 1;
        }
        false
    }
}

impl Board {
    /// Whether the first piece beyond `c` along `d`, passing over `skip`, is
    /// an enemy of `owner` that moves along `d`.
    fn pinner_walk(&self, from: Coord, d: Coord, owner: Player, skip: Option<Coord>) -> (r: bool)
        requires
            self.wf(),
            on_board(from),
            is_step(d),
        ensures
            r == pinner_beyond(self.view(), from, d, owner, skip, 7),
    {
        let ghost p = self.view();
        let pinning = if d.row == d.col || d.row == -d.col {
            Kind::Bishop
        } else {
            Kind::Rook
        };
        let mut c = from;
        let mut i: usize = 0;
        while i < 7
            invariant
                self.wf(),
                p == self.view(),
                is_step(d),
                pinning == pinning_kind(d),
                i <= 7,
                on_board(from),
                on_board(from),
            from.row - 2 * i <= c.row <= from.row + 2 * i,
                from.col - 2 * i <= c.col <= from.col + 2 * i,
                pinner_beyond(p, from, d, owner, skip, 7) == pinner_beyond(
                    p,
                    c,
                    d,
                    owner,
                    skip,
                    (7 - i) as nat,
                ),
            decreases 7 - i,
        {
            let n = c.add(d);
            let passed = match skip {
                Some(x) => x == n,
                None => false,
            };
            if !passed {
                if !n.is_valid() {
                    return false;
                }
                if let Some(piece) = self.get_piece_by_coord(n) {
                    return piece.player != owner && (piece.kind == pinning || piece.kind
                        == Kind::Queen);
                }
            }
            c = n;
            i += 1;
        }
        false
    }

    /// The direction, from its king, along which a piece is pinned.
    pub fn is_piece_pinned(&self, p: Piece) -> (r: Option<Coord>)
        requires
            self.wf(),
            on_board(p.coord),
        ensures
            r == pin_dir(self.view(), p.coord, p.player, p.kind),
    {
        if p.kind == Kind::King {
            return None;
        }
        let king_loc = self.find_king(p.player);
        let dir = Coord::find_dir_between_coords(p.coord, king_loc);
        if self.pin_walk(king_loc, dir, p.coord, p.player, None) {
            Some(dir)
        } else {
            None
        }
    }

    /// Whether a pawn's en-passant capture would expose its king.
    pub fn is_pawn_enpassant_pinned(&self, p: Piece) -> (r: bool)
        requires
            self.wf(),
            on_board(p.coord),
        ensures
            r == ep_pinned(self.view(), p.coord, p.player, p.kind),
    {
        if p.kind != Kind::Pawn {
            return false;
        }
        match self.en_passant_square {
            Some(e) => {
                let king_loc = self.find_king(p.player);
                let dir = Coord::find_dir_between_coords(p.coord, king_loc);
                let captured = e.add(p.player.opponent().advancing_direction());
                self.pin_walk(king_loc, dir, p.coord, p.player, Some(captured))
            },
            None => false,
        }
    }
}

/// The squares from `from` onward along `d` up to and including `target`.
fn segment_to(from: Coord, d: Coord, target: Coord) -> (r: Vec<Coord>)
    requires
        on_board(from),
        is_step(d),
    ensures
        r@ == segment(from, d, target, 7),
{
    let mut out: Vec<Coord> = Vec::new();
    let mut c = from;
    let mut i: usize = 0;
    while i < 7
        invariant
            is_step(d),
            i <= 7,
            on_board(from),
            from.row - 2 * i <= c.row <= from.row + 2 * i,
            from.col - 2 * i <= c.col <= from.col + 2 * i,
            segment(from, d, target, 7) == out@ + segment(c, d, target, (7 - i) as nat),
        decreases 7 - i,
    {
        let n = c.add(d);
        let ghost before = out@;
        out.push(n);
        if n == target {
            assert(before + segment(c, d, target, (7 - i) as nat) =~= out@);
            return out;
        }
        assert(before + segment(c, d, target, (7 - i) as nat) =~= out@ + segment(
            n,
            d,
            target,
            (7 - (i + 1)) as nat,
        ));
        c = n;
        i += 1;
    }
    assert(out@ + segment(c, d, target, 0) =~= out@);
    out
}

/// Every attacker found stands on the board.
proof fn lemma_attackers_on_board(p: Position, s: Coord, by: Player, n: int)
    ensures
        forall|j: int|
            0 <= j < attackers_upto(p, s, by, n).len() ==> on_board(
                #[trigger] attackers_upto(p, s, by, n)[j],
            ) && p.occupied(attackers_upto(p, s, by, n)[j]),
    decreases n,
{
    if n > 0 {
        lemma_attackers_on_board(p, s, by, n - 1);
        let i = n - 1;
        match slot_attacker(p, s, by, i, None) {
            Some(c) => {
                if i < 8 {
                    assert(p.at(c) is Some);
                } else {
                    assert(p.at(c) is Some);
                }
                assert(on_board(c));
            },
            None => {},
        }
        let prev = attackers_upto(p, s, by, n - 1);
        let cur = attackers_upto(p, s, by, n);
        assert forall|j: int| 0 <= j < cur.len() implies on_board(#[trigger] cur[j]) && p.occupied(cur[j]) by {
            if j < prev.len() {
                assert(cur[j] == prev[j]);
            }
        }
    }
}

impl Board {
    /// The squares a piece moving like `kind` may land on to end the check
    /// given by the piece on `ch`.
    fn check_targets_vec(&self, ch: Coord, kind: Kind) -> (r: Vec<Coord>)
        requires
            self.wf(),
            on_board(ch),
        ensures
            r@ == check_targets(self.view(), ch, kind),
    {
        let king_loc = self.find_king(self.turn);
        let mut out: Vec<Coord> = Vec::new();
        match self.get_piece_by_coord(ch) {
            Some(checker) => match checker.kind {
                Kind::Pawn => {
                    out.push(ch);
                    if let Some(e) = self.en_passant_square {
                        if ch == e.add(checker.player.advancing_direction()) && kind == Kind::Pawn {
                            out.push(e);
                        }
                    }
                },
                Kind::Knight => {
                    out.push(ch);
                },
                Kind::King => {},
                _ => {
                    let dir = Coord::find_dir_between_coords(ch, king_loc);
                    out = segment_to(king_loc, dir, ch);
                },
            },
            None => {},
        }
        assert(out@ =~= check_targets(self.view(), ch, kind));
        out
    }

    /// The legal moves of the piece on `coord`.
    pub fn get_legal_moves(&self, coord: Coord) -> (r: Vec<Ply>)
        requires
            self.wf(),
            on_board(coord),
        ensures
            r@ == legal_moves(self.view(), coord),
    {
        let mut out: Vec<Ply> = Vec::new();
        let piece = match self.get_piece_by_coord(coord) {
            Some(p) => p,
            None => {
                return out;
            },
        };
        let pl = piece.player;
        let king_loc = self.find_king(self.turn);
        let checking = self.square_attacked_by_pieces(king_loc, self.turn.opponent());
        proof {
            lemma_attackers_on_board(self.view(), king_loc, spec_opponent(self.turn), 26);
        }
        if checking.len() == 1 {
            if piece.kind == Kind::King {
                self.get_king_moves(coord, pl, &mut out);
                assert(out@ =~= legal_moves(self.view(), coord));
                return out;
            }
            if self.is_piece_pinned(piece).is_some() {
                assert(out@ =~= legal_moves(self.view(), coord));
                return out;
            }
            let targets = self.check_targets_vec(checking[0], piece.kind);
            return keep_destinations(self.get_pseudo_legal_moves(coord), &targets);
        } else if checking.len() >= 2 {
            if piece.kind == Kind::King {
                self.get_king_moves(coord, pl, &mut out);
            }
            assert(out@ =~= legal_moves(self.view(), coord));
            return out;
        }
        match self.is_piece_pinned(piece) {
            Some(d) => {
                match piece.kind {
                    Kind::Pawn => {
                        self.get_pawn_moves(coord, pl, &mut out);
                        self.get_pawn_captures(coord, pl, &mut out);
                        if let Some(x) = self.get_pawn_en_passant(coord, pl) {
                            out.push(x);
                        }
                        let one = coord.add(d);
                        let mut targets: Vec<Coord> = Vec::new();
                        targets.push(one);
                        targets.push(one.add(d));
                        assert(out@ =~= pawn_moves(self.view(), coord, pl) + pawn_en_passant(
                            self.view(),
                            coord,
                            pl,
                        ));
                        assert(targets@ =~= seq![plus(coord, d), plus(plus(coord, d), d)]);
                        return keep_destinations(out, &targets);
                    },
                    Kind::Rook => self.get_queen_rook_bishop_moves(coord, pl, 0, 4, Some(d), &mut out),
                    Kind::Bishop => self.get_queen_rook_bishop_moves(coord, pl, 4, 8, Some(d), &mut out),
                    Kind::Queen => self.get_queen_rook_bishop_moves(coord, pl, 0, 8, Some(d), &mut out),
                    _ => {},
                }
                assert(out@ =~= legal_moves(self.view(), coord));
                out
            },
            None => {
                if piece.kind == Kind::Pawn && self.is_pawn_enpassant_pinned(piece) {
                    self.get_pawn_moves(coord, pl, &mut out);
                    self.get_pawn_captures(coord, pl, &mut out);
                    assert(out@ =~= legal_moves(self.view(), coord));
                    out
                } else {
                    self.get_pseudo_legal_moves(coord)
                }
            },
        }
    }

    /// Every legal move of the side to move, square by square in grid order.
    pub fn get_all_moves(&self) -> (r: Vec<Ply>)
        requires
            self.wf(),
        ensures
            r@ == all_moves(self.view()),
    {
        let mut out: Vec<Ply> = Vec::new();
        let mut i: usize = 0;
        while i < 64
            invariant
                self.wf(),
                i <= 64,
                out@ == all_moves_upto(self.view(), i as int),
            decreases 64 - i,
        {
            let c = Coord { row: (i / 8) as i32, col: (i % 8) as i32 };
            assert(c == square_of(i as int));
            if self.owned_by(c, self.turn) {
                let mut m = self.get_legal_moves(c);
                out.append(&mut m);
            }
            i += 1;
        }
        out
    }

    /// Whether a ply supplied from outside is one of the legal moves of the
    /// side to move.
    pub fn arbiter(&self, ply: &Ply) -> (r: bool)
        requires
            self.wf(),
        ensures
            r == (on_board(ply.origin) && self.view().owner(ply.origin) == Some(self.view().turn)
                && legal_moves(self.view(), ply.origin).contains(*ply)),
    {
        if !ply.origin.is_valid() {
            return false;
        }
        match self.get_piece_by_coord(ply.origin) {
            Some(piece) => {
                if piece.player != self.turn {
                    return false;
                }
            },
            None => {
                return false;
            },
        }
        let moves = self.get_legal_moves(ply.origin);
        assert(self.view().owner(ply.origin) == Some(self.view().turn));
        let mut i: usize = 0;
        while i < moves.len()
            invariant
                i <= moves@.len(),
                forall|j: int| 0 <= j < i ==> moves@[j] != *ply,
                on_board(ply.origin),
                self.view().owner(ply.origin) == Some(self.view().turn),
                moves@ == legal_moves(self.view(), ply.origin),
            decreases moves@.len() - i,
        {
            if moves[i] == *ply {
                assert(moves@[i as int] == *ply);
                assert(moves@.contains(*ply));
                return true;
            }
            i += 1;
        }
        false
    }

    /// Classifies the position for the side to move.
    pub fn verify_status(&self) -> (r: Status)
        requires
            self.wf(),
        ensures
            r == status_of(self.view()),
    {
        if self.half_move_clock >= 100 {
            return Status::Draw;
        }
        if self.get_all_moves().len() > 0 {
            return Status::Ongoing;
        }
        let king_pos = self.find_king(self.turn);
        if !self.is_square_attacked(king_pos, self.turn.opponent()) {
            return Status::Draw;
        }
        match self.turn {
            Player::Black => Status::WWin,
            Player::White => Status::BWin,
        }
    }
}

} // verus!
