use vstd::prelude::*;
use crate::board::{Board, Position, pos_move, pos_promote, pos_remove};
use crate::coord::{Coord, minus, mk, on_board, plus};
use crate::piece::{Kind, Piece};
use crate::player::{Player, spec_advance, spec_opponent};
use crate::ply::Ply;

verus! {

/// A ply that starts or ends on `c`.
pub open spec fn touches(m: Ply, c: Coord) -> bool {
    m.origin == c || m.destination == c
}

/// A ply that a position can be asked to play: both squares on the board and
/// distinct, a piece on the origin, no promotion to a king.
pub open spec fn playable(p: Position, m: Ply) -> bool {
    &&& on_board(m.origin)
    &&& on_board(m.destination)
    &&& m.origin != m.destination
    &&& p.occupied(m.origin)
    &&& m.promotion != Some(Kind::King)
}

/// The position after playing `m`. The clock restarts on a pawn move or a
/// capture and counts up otherwise; a pawn moving diagonally onto an empty
/// square takes the pawn behind it; a two-square pawn advance sets the
/// en-passant target to the square passed over, any other move clears it; a
/// king moving two files brings the rook over; a king move clears its side's
/// castling rights, and a move from or onto a corner clears the right that
/// uses it; a promotion changes the piece; the side to move passes.
#[verifier::opaque]
pub open spec fn play(p: Position, m: Ply) -> Position {
    let kind = (p.at(m.origin)->0).0;
    finish(p, m, pos_move(promote_stage(castle_stage(capture_stage(p, m), m, kind), m), m.origin, m.destination))
}

/// The position `q`, whose grid and king locations are those after `m`, with
/// the side to move, castling rights, en-passant target and clock that follow
/// `m` from `p`.
pub open spec fn finish(p: Position, m: Ply, q: Position) -> Position {
    let (kind, pl) = p.at(m.origin)->0;
    let white_king_moved = kind == Kind::King && pl == Player::White;
    let black_king_moved = kind == Kind::King && pl == Player::Black;
    Position {
        turn: spec_opponent(p.turn),
        white_oo: p.white_oo && !white_king_moved && !touches(m, mk(0, 7)),
        white_ooo: p.white_ooo && !white_king_moved && !touches(m, mk(0, 0)),
        black_oo: p.black_oo && !black_king_moved && !touches(m, mk(7, 7)),
        black_ooo: p.black_ooo && !black_king_moved && !touches(m, mk(7, 0)),
        en_passant: if kind == Kind::Pawn && m.destination == plus(
            plus(m.origin, spec_advance(pl)),
            spec_advance(pl),
        ) {
            Some(plus(m.origin, spec_advance(pl)))
        } else {
            None
        },
        clock: if kind == Kind::Pawn || p.occupied(m.destination) {
            0
        } else {
            p.clock + 1
        },
        ..q
    }
}

/// The square of the pawn taken en passant by the pawn of `pl` landing on `d`.
pub open spec fn passed_pawn_square(d: Coord, pl: Player) -> Coord {
    minus(d, spec_advance(pl))
}

/// `m` is a pawn's diagonal move onto an empty square: an en-passant capture.
pub open spec fn is_en_passant_capture(p: Position, m: Ply) -> bool {
    let (kind, pl) = p.at(m.origin)->0;
    kind == Kind::Pawn && m.origin.col != m.destination.col && !p.occupied(m.destination)
        && on_board(passed_pawn_square(m.destination, pl))
}

/// The grid after the pawn taken en passant, if any, is removed.
pub open spec fn capture_stage(p: Position, m: Ply) -> Position {
    if is_en_passant_capture(p, m) {
        pos_remove(p, passed_pawn_square(m.destination, (p.at(m.origin)->0).1))
    } else {
        p
    }
}

/// The grid after the rook of a castling king, if any, has moved.
pub open spec fn castle_stage(p: Position, m: Ply, kind: Kind) -> Position {
    let o = m.origin;
    let d = m.destination;
    if kind == Kind::King && d == plus(o, mk(0, 2)) && on_board(plus(d, mk(0, 1))) {
        pos_move(p, plus(d, mk(0, 1)), plus(d, mk(0, -1)))
    } else if kind == Kind::King && d == plus(o, mk(0, -2)) && on_board(plus(d, mk(0, -2))) {
        pos_move(p, plus(d, mk(0, -2)), plus(d, mk(0, 1)))
    } else {
        p
    }
}

/// The grid after the moving piece has been promoted, if the ply says so.
pub open spec fn promote_stage(p: Position, m: Ply) -> Position {
    match m.promotion {
        Some(k) => pos_promote(p, m.origin, k),
        None => p,
    }
}

/// Playing a ply is a function of the position and the ply: the same
/// position and ply always give the same position.
pub proof fn make_move_deterministic(b1: Board, b2: Board, m: Ply)
    requires
        b1.view() == b2.view(),
    ensures
        play(b1.view(), m) == play(b2.view(), m),
{
}

impl Board {
    /// A copy of the board, entry for entry.
    pub fn copy(&self) -> (r: Board)
        ensures
            r.board@ == self.board@,
            r.white_pieces@ == self.white_pieces@,
            r.black_pieces@ == self.black_pieces@,
            r.turn == self.turn,
            r.white_king_loc == self.white_king_loc,
            r.black_king_loc == self.black_king_loc,
            r.white_can_oo == self.white_can_oo,
            r.white_can_ooo == self.white_can_ooo,
            r.black_can_oo == self.black_can_oo,
            r.black_can_ooo == self.black_can_ooo,
            r.half_move_clock == self.half_move_clock,
            r.en_passant_square == self.en_passant_square,
    {
        Board {
            turn: self.turn,
            board: copy_vec(&self.board),
            white_pieces: copy_vec(&self.white_pieces),
            black_pieces: copy_vec(&self.black_pieces),
            white_king_loc: self.white_king_loc,
            black_king_loc: self.black_king_loc,
            white_can_oo: self.white_can_oo,
            white_can_ooo: self.white_can_ooo,
            black_can_oo: self.black_can_oo,
            black_can_ooo: self.black_can_ooo,
            half_move_clock: self.half_move_clock,
            en_passant_square: self.en_passant_square,
        }
    }

    /// The board after `ply`; this board is left as it is.
    pub fn make_move(&self, ply: Ply) -> (r: Board)
        requires
            self.wf(),
            playable(self.view(), ply),
            self.half_move_clock < u64::MAX,
        ensures
            r.wf(),
            r.view() == play(self.view(), ply),
            r.half_move_clock <= self.half_move_clock + 1,
    {
        let piece = self.get_piece_by_coord(ply.origin).unwrap();
        let onto_piece = self.is_square_occupied(ply.destination);
        let mut b = self.relocate_for(ply, piece);
        let ghost moved = b;
        b.finish_move(ply, piece, onto_piece, self);
        proof {
            lemma_same_storage_wf(moved, b);
            lemma_play_stages(self.view(), ply, moved.view(), b.view());
        }
        b
    }

    /// A copy of this board with the pieces moved as `ply` moves them, the
    /// rest of the state not yet updated.
    fn relocate_for(&self, ply: Ply, piece: Piece) -> (r: Board)
        requires
            self.wf(),
            playable(self.view(), ply),
            self.view().at(ply.origin) == Some((piece.kind, piece.player)),
        ensures
            r.wf(),
            r.view() == pos_move(
                promote_stage(castle_stage(capture_stage(self.view(), ply), ply, piece.kind), ply),
                ply.origin,
                ply.destination,
            ),
    {
        let origin = ply.origin;
        let destination = ply.destination;
        let mut b = self.copy();
        proof {
            lemma_same_storage_wf(*self, b);
        }
        b.take_en_passant_pawn(ply, piece);
        b.castle_rook(ply, piece.kind);
        let ghost p2 = b.view();
        if let Some(promo) = ply.promotion {
            let current = b.get_piece_by_coord(origin).unwrap();
            b.promote_piece(current, promo);
        }
        assert(b.view() == promote_stage(p2, ply));
        b.move_piece_by_coord(origin, destination);
        b
    }

    /// Sets the side to move, castling rights, en-passant target and clock
    /// after `ply`, played from `before` by `piece`.
    fn finish_move(&mut self, ply: Ply, piece: Piece, onto_piece: bool, before: &Board)
        requires
            before.wf(),
            playable(before.view(), ply),
            before.half_move_clock < u64::MAX,
            before.view().at(ply.origin) == Some((piece.kind, piece.player)),
            onto_piece == before.view().occupied(ply.destination),
        ensures
            final(self).view() == finish(before.view(), ply, old(self).view()),
            final(self).board@ == old(self).board@,
            final(self).white_pieces@ == old(self).white_pieces@,
            final(self).black_pieces@ == old(self).black_pieces@,
            final(self).white_king_loc == old(self).white_king_loc,
            final(self).black_king_loc == old(self).black_king_loc,
            final(self).en_passant_square matches Some(e) ==> on_board(e),
    {
        let origin = ply.origin;
        let destination = ply.destination;
        let dir = piece.player.advancing_direction();
        if piece.kind == Kind::Pawn || onto_piece {
            self.half_move_clock = 0;
        } else {
            self.half_move_clock = before.half_move_clock + 1;
        }
        self.en_passant_square = if piece.kind == Kind::Pawn && destination == origin.add(dir).add(
            dir,
        ) {
            Some(origin.add(dir))
        } else {
            None
        };
        let white_king_moved = piece.kind == Kind::King && piece.player == Player::White;
        let black_king_moved = piece.kind == Kind::King && piece.player == Player::Black;
        self.white_can_oo = before.white_can_oo && !white_king_moved && !Board::touches_square(
            ply,
            0,
            7,
        );
        self.white_can_ooo = before.white_can_ooo && !white_king_moved && !Board::touches_square(
            ply,
            0,
            0,
        );
        self.black_can_oo = before.black_can_oo && !black_king_moved && !Board::touches_square(
            ply,
            7,
            7,
        );
        self.black_can_ooo = before.black_can_ooo && !black_king_moved && !Board::touches_square(
            ply,
            7,
            0,
        );
        self.turn = before.turn.opponent();
    }

    /// Takes off the pawn captured en passant, when `ply` is such a capture.
    fn take_en_passant_pawn(&mut self, ply: Ply, piece: Piece)
        requires
            old(self).wf(),
            playable(old(self).view(), ply),
            old(self).view().at(ply.origin) == Some((piece.kind, piece.player)),
        ensures
            final(self).wf(),
            final(self).view() == capture_stage(old(self).view(), ply),
            final(self).view().occupied(ply.origin),
    {
        let origin = ply.origin;
        let destination = ply.destination;
        if piece.kind == Kind::Pawn && origin.col != destination.col && !self.is_square_occupied(
            destination,
        ) {
            let captured = destination.sub(piece.player.advancing_direction());
            if captured.is_valid() {
                self.remove_piece_from_occupied_square(captured);
                assert(self.view() == pos_remove(
                    old(self).view(),
                    passed_pawn_square(destination, piece.player),
                ));
            }
        }
    }

    /// Brings the rook over when `ply` is a king moving two files.
    fn castle_rook(&mut self, ply: Ply, kind: Kind)
        requires
            old(self).wf(),
            on_board(ply.origin),
            on_board(ply.destination),
            old(self).view().occupied(ply.origin),
        ensures
            final(self).wf(),
            final(self).view() == castle_stage(old(self).view(), ply, kind),
            final(self).view().occupied(ply.origin),
    {
        let origin = ply.origin;
        let destination = ply.destination;
        if kind == Kind::King && destination == origin.add(Coord { row: 0, col: 2 }) {
            let from = destination.add(Coord { row: 0, col: 1 });
            if from.is_valid() {
                self.move_piece_by_coord(from, destination.add(Coord { row: 0, col: -1 }));
                assert(self.view().grid =~= castle_stage(old(self).view(), ply, kind).grid);
            }
        } else if kind == Kind::King && destination == origin.add(Coord { row: 0, col: -2 }) {
            let from = destination.add(Coord { row: 0, col: -2 });
            if from.is_valid() {
                self.move_piece_by_coord(from, destination.add(Coord { row: 0, col: 1 }));
                assert(self.view().grid =~= castle_stage(old(self).view(), ply, kind).grid);
            }
        }
    }

    fn touches_square(ply: Ply, row: i32, col: i32) -> (r: bool)
        ensures
            r == touches(ply, mk(row as int, col as int)),
    {
        let c = Coord { row, col };
        ply.origin == c || ply.destination == c
    }
}

/// `play` is the composition of its stages.
proof fn lemma_play_stages(p: Position, m: Ply, p4: Position, q: Position)
    requires
        p4 == pos_move(
            promote_stage(castle_stage(capture_stage(p, m), m, (p.at(m.origin)->0).0), m),
            m.origin,
            m.destination,
        ),
        q == finish(p, m, p4),
    ensures
        q == play(p, m),
{
    reveal(play);
}

/// Boards with the same grid, lists and king locations, and an en-passant
/// square on the board, are both well formed if one is.
proof fn lemma_same_storage_wf(a: Board, b: Board)
    requires
        a.wf(),
        b.board@ == a.board@,
        b.white_pieces@ == a.white_pieces@,
        b.black_pieces@ == a.black_pieces@,
        b.white_king_loc == a.white_king_loc,
        b.black_king_loc == a.black_king_loc,
        b.en_passant_square matches Some(e) ==> on_board(e),
    ensures
        b.wf(),
{
    assert(b.list(Player::White) == a.list(Player::White));
    assert(b.list(Player::Black) == a.list(Player::Black));
}

fn copy_vec<T: Copy>(v: &Vec<T>) -> (r: Vec<T>)
    ensures
        r@ == v@,
{
    let mut out: Vec<T> = Vec::new();
    let mut i: usize = 0;
    while i < v.len()
        invariant
            i <= v@.len(),
            out@ == v@.take(i as int),
        decreases v@.len() - i,
    {
        out.push(v[i]);
        assert(out@ =~= v@.take(i + 1));
        i += 1;
    }
    assert(out@ =~= v@);
    out
}

} // verus!
