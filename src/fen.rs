use vstd::prelude::*;
use vstd::string::{StringSliceAdditionalSpecFns, is_ascii};
use crate::board::{Board, Position, sq};
use crate::coord::{Coord, on_board};
use crate::legal::square_of;
use crate::piece::{Kind, Piece};
use crate::player::Player;

verus! {

/// A position as the FEN reader hands it over: 64 squares from a1 along each
/// rank up to h8, each empty or holding a kind code (in the reader's order:
/// pawn, knight, bishop, rook, queen, king) and whether the piece is white;
/// the side to move; the castling rights; the en-passant square as a square
/// index; the half-move clock.
pub struct FenRecord {
    pub squares: Vec<Option<(u8, bool)>>,
    pub white_to_move: bool,
    pub white_can_oo: bool,
    pub white_can_ooo: bool,
    pub black_can_oo: bool,
    pub black_can_ooo: bool,
    pub en_passant: Option<u8>,
    pub halfmove_clock: u64,
}

/// What the FEN reader makes of a text; none where it rejects it.
pub uninterp spec fn fen_reading(s: Seq<char>) -> Option<FenRecord>;

/// How many files a byte of a rank description covers: a digit its value,
/// anything else one.
pub open spec fn byte_weight(b: u8) -> int {
    if 48 <= b <= 57 {
        b - 48
    } else {
        1
    }
}

/// Each rank description of the placement field (which ends at the first
/// space) covers at most eight files, `acc` files of the current one being
/// covered already.
pub open spec fn ranks_fit(bs: Seq<u8>, acc: int) -> bool
    decreases bs.len(),
{
    if bs.len() == 0 || bs[0] == 32 {
        true
    } else if bs[0] == 47 {
        ranks_fit(bs.drop_first(), 0)
    } else {
        acc + byte_weight(bs[0]) <= 8 && ranks_fit(bs.drop_first(), acc + byte_weight(bs[0]))
    }
}

/// Texts the FEN reader takes without failing: plain ASCII, with no rank
/// description covering more than eight files.
pub open spec fn fen_safe(s: &str) -> bool {
    is_ascii(s) && ranks_fit(s.spec_bytes(), 0)
}

/// Relies on fen::BoardState::from_fen: reads a FEN text into its parts, the
/// same parts for the same text. It indexes past its board when a rank names
/// a piece too far beyond the eighth file, and splits a non-ASCII en-passant
/// field wrongly, so those texts are kept away from it.
#[verifier::external_body]
fn read_fen(fen: &str) -> (r: Option<FenRecord>)
    requires
        fen_safe(fen),
    ensures
        r == fen_reading(fen@),
{
    let b = fen::BoardState::from_fen(fen).ok()?;
    let squares = b.pieces.iter().map(|p| p.as_ref().map(|x| (x.kind.clone() as u8, x.color == fen::Color::White))).collect();
    Some(FenRecord {
        squares,
        white_to_move: b.side_to_play == fen::Color::White,
        white_can_oo: b.white_can_oo,
        white_can_ooo: b.white_can_ooo,
        black_can_oo: b.black_can_oo,
        black_can_ooo: b.black_can_ooo,
        en_passant: b.en_passant_square,
        halfmove_clock: b.halfmove_clock,
    })
}

/// Whether `fen` is a text the FEN reader can be given.
pub fn fen_within_limits(fen: &str) -> (r: bool)
    ensures
        r == fen_safe(fen),
{
    if !fen.is_ascii() {
        return false;
    }
    let bytes = fen.as_bytes();
    let ghost bs = fen.spec_bytes();
    let mut weight: u64 = 0;
    let mut i: usize = 0;
    assert(bs.subrange(0, bs.len() as int) =~= bs);
    while i < bytes.len()
        invariant
            bytes@ == bs,
            bs == fen.spec_bytes(),
            is_ascii(fen),
            i <= bs.len(),
            weight <= 8,
            ranks_fit(bs, 0) == ranks_fit(bs.subrange(i as int, bs.len() as int), weight as int),
        decreases bs.len() - i,
    {
        let b = bytes[i];
        let ghost rest = bs.subrange(i as int, bs.len() as int);
        assert(rest.drop_first() =~= bs.subrange(i + 1, bs.len() as int));
        assert(rest[0] == b);
        if b == 32 {
            return true;
        }
        if b == 47 {
            weight = 0;
        } else {
            weight = weight + if 48 <= b && b <= 57 {
                (b - 48) as u64
            } else {
                1
            };
            if weight > 8 {
                return false;
            }
        }
        i += 1;
    }
    assert(bs.subrange(i as int, bs.len() as int).len() == 0);
    true
}

pub open spec fn decode_kind(c: u8) -> Kind {
    if c == 0 {
        Kind::Pawn
    } else if c == 1 {
        Kind::Knight
    } else if c == 2 {
        Kind::Bishop
    } else if c == 3 {
        Kind::Rook
    } else if c == 4 {
        Kind::Queen
    } else {
        Kind::King
    }
}

pub open spec fn decode_player(white: bool) -> Player {
    if white {
        Player::White
    } else {
        Player::Black
    }
}

pub open spec fn decode_square(o: Option<(u8, bool)>) -> Option<(Kind, Player)> {
    match o {
        Some((k, w)) => Some((decode_kind(k), decode_player(w))),
        None => None,
    }
}

pub open spec fn is_king_of(o: Option<(u8, bool)>, white: bool) -> bool {
    o == Some((5u8, white))
}

/// A record that makes a board: 64 squares with known kind codes, exactly one
/// king of each colour, and an en-passant square on the board.
pub open spec fn record_ok(rec: FenRecord) -> bool {
    let s = rec.squares@;
    &&& s.len() == 64
    &&& forall|i: int| 0 <= i < 64 && (#[trigger] s[i]) is Some ==> (s[i]->0).0 < 6
    &&& exists|i: int| 0 <= i < 64 && is_king_of(#[trigger] s[i], true)
    &&& exists|i: int| 0 <= i < 64 && is_king_of(#[trigger] s[i], false)
    &&& forall|i: int, j: int|
        0 <= i < 64 && 0 <= j < 64 && is_king_of(#[trigger] s[i], true) && is_king_of(
            #[trigger] s[j],
            true,
        ) ==> i == j
    &&& forall|i: int, j: int|
        0 <= i < 64 && 0 <= j < 64 && is_king_of(#[trigger] s[i], false) && is_king_of(
            #[trigger] s[j],
            false,
        ) ==> i == j
    &&& rec.en_passant matches Some(e) ==> e < 64
}

/// The square of the king of one colour in a record.
pub open spec fn record_king(rec: FenRecord, white: bool) -> Coord {
    square_of(choose|i: int| 0 <= i < 64 && is_king_of(rec.squares@[i], white))
}

/// The position a record describes.
pub open spec fn record_position(rec: FenRecord) -> Position {
    Position {
        grid: rec.squares@.map_values(|o: Option<(u8, bool)>| decode_square(o)),
        turn: decode_player(rec.white_to_move),
        white_king: record_king(rec, true),
        black_king: record_king(rec, false),
        white_oo: rec.white_can_oo,
        white_ooo: rec.white_can_ooo,
        black_oo: rec.black_can_oo,
        black_ooo: rec.black_can_ooo,
        en_passant: match rec.en_passant {
            Some(e) => Some(square_of(e as int)),
            None => None,
        },
        clock: rec.halfmove_clock as int,
    }
}

fn decode_kind_code(c: u8) -> (r: Kind)
    ensures
        r == decode_kind(c),
{
    if c == 0 {
        Kind::Pawn
    } else if c == 1 {
        Kind::Knight
    } else if c == 2 {
        Kind::Bishop
    } else if c == 3 {
        Kind::Rook
    } else if c == 4 {
        Kind::Queen
    } else {
        Kind::King
    }
}

/// The square of grid index `i`.
pub fn square_at(i: usize) -> (r: Coord)
    requires
        i < 64,
    ensures
        r == square_of(i as int),
        on_board(r),
        sq(r) == i,
{
    Coord { row: (i / 8) as i32, col: (i % 8) as i32 }
}

impl Board {
    /// The board a FEN record describes, if it describes one.
    pub fn from_record(rec: &FenRecord) -> (r: Option<Board>)
        ensures
            r is Some <==> record_ok(*rec),
            r matches Some(b) ==> b.wf() && b.view() == record_position(*rec),
    {
        if rec.squares.len() != 64 {
            return None;
        }
        let ghost s = rec.squares@;
        let mut wk: Option<usize> = None;
        let mut bk: Option<usize> = None;
        let mut i: usize = 0;
        while i < 64
            invariant
                s == rec.squares@,
                s.len() == 64,
                i <= 64,
                forall|j: int| 0 <= j < i && (#[trigger] s[j]) is Some ==> (s[j]->0).0 < 6,
                wk is None ==> forall|j: int| 0 <= j < i ==> !is_king_of(#[trigger] s[j], true),
                wk matches Some(w) ==> w < i && is_king_of(s[w as int], true) && forall|j: int|
                    0 <= j < i && is_king_of(#[trigger] s[j], true) ==> j == w,
                bk is None ==> forall|j: int| 0 <= j < i ==> !is_king_of(#[trigger] s[j], false),
                bk matches Some(w) ==> w < i && is_king_of(s[w as int], false) && forall|j: int|
                    0 <= j < i && is_king_of(#[trigger] s[j], false) ==> j == w,
            decreases 64 - i,
        {
            if let Some((k, white)) = rec.squares[i] {
                if k >= 6 {
                    return None;
                }
                if k == 5 {
                    if white {
                        if let Some(w) = wk {
                            assert(is_king_of(s[w as int], true) && is_king_of(s[i as int], true));
                            return None;
                        }
                        wk = Some(i);
                    } else {
                        if let Some(w) = bk {
                            assert(is_king_of(s[w as int], false) && is_king_of(s[i as int], false));
                            return None;
                        }
                        bk = Some(i);
                    }
                }
            }
            i += 1;
        }
        let (w, bl) = match (wk, bk) {
            (Some(w), Some(bl)) => (w, bl),
            _ => {
                return None;
            },
        };
        let en_passant_square = match rec.en_passant {
            Some(e) => {
                if e >= 64 {
                    return None;
                }
                Some(square_at(e as usize))
            },
            None => None,
        };
        let mut grid: Vec<Option<Piece>> = Vec::new();
        let mut j: usize = 0;
        while j < 64
            invariant
                j <= 64,
                grid@.len() == j,
                forall|k: int| 0 <= k < j ==> (#[trigger] grid@[k]) is None,
            decreases 64 - j,
        {
            grid.push(None);
            j += 1;
        }
        let mut board = Board {
            turn: if rec.white_to_move {
                Player::White
            } else {
                Player::Black
            },
            board: grid,
            white_pieces: Vec::new(),
            black_pieces: Vec::new(),
            white_king_loc: square_at(w),
            black_king_loc: square_at(bl),
            white_can_oo: rec.white_can_oo,
            white_can_ooo: rec.white_can_ooo,
            black_can_oo: rec.black_can_oo,
            black_can_ooo: rec.black_can_ooo,
            half_move_clock: rec.halfmove_clock,
            en_passant_square,
        };
        let ghost want = record_position(*rec);
        assert(record_ok(*rec));
        let ghost cw = choose|i: int| 0 <= i < 64 && is_king_of(rec.squares@[i], true);
        let ghost cb = choose|i: int| 0 <= i < 64 && is_king_of(rec.squares@[i], false);
        assert(cw == w && cb == bl);
        assert(board.wf());
        let mut i: usize = 0;
        while i < 64
            invariant
                i <= 64,
                s == rec.squares@,
                record_ok(*rec),
                want == record_position(*rec),
                is_king_of(s[w as int], true),
                is_king_of(s[bl as int], false),
                board.wf(),
                board.white_king_loc == square_of(w as int),
                board.black_king_loc == square_of(bl as int),
                board.view().grid == Seq::new(
                    64,
                    |k: int|
                        if k < i {
                            decode_square(s[k])
                        } else {
                            None
                        },
                ),
                board.view().turn == want.turn,
                board.view().white_oo == want.white_oo,
                board.view().white_ooo == want.white_ooo,
                board.view().black_oo == want.black_oo,
                board.view().black_ooo == want.black_ooo,
                board.view().en_passant == want.en_passant,
                board.view().clock == want.clock,
                want.white_king == square_of(w as int),
                want.black_king == square_of(bl as int),
            decreases 64 - i,
        {
            if let Some((k, white)) = rec.squares[i] {
                let coord = square_at(i);
                assert(board.view().grid[i as int] is None);
                let player = if white {
                    Player::White
                } else {
                    Player::Black
                };
                let piece = Piece { kind: decode_kind_code(k), player, coord, idx: 0 };
                if k == 5 {
                    if white {
                        assert(is_king_of(s[i as int], true));
                    } else {
                        assert(is_king_of(s[i as int], false));
                    }
                }
                board.add_piece_to_empty_square(piece);
            }
            assert(board.view().grid =~= Seq::new(
                64,
                |k: int|
                    if k < i + 1 {
                        decode_square(s[k])
                    } else {
                        None
                    },
            ));
            i += 1;
        }
        assert(board.view().grid =~= want.grid);
        Some(board)
    }

    /// The board a FEN text describes, if the text is read and describes one.
    pub fn new_from_fen(fen: &str) -> (r: Option<Board>)
        ensures
            r is Some <==> fen_safe(fen) && (fen_reading(fen@) matches Some(rec) && record_ok(rec)),
            r matches Some(b) ==> b.wf() && (fen_reading(fen@) matches Some(rec) && b.view()
                == record_position(rec)),
    {
        if !fen_within_limits(fen) {
            return None;
        }
        match read_fen(fen) {
            Some(rec) => Board::from_record(&rec),
            None => None,
        }
    }
}

} // verus!
