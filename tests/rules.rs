use chess_core::board::Board;
use chess_core::coord::Coord;
use chess_core::engine::{evaluate, search, MATE};
use chess_core::game::Game;
use chess_core::piece::Kind;
use chess_core::player::Player;
use chess_core::ply::Ply;
use chess_core::status::Status;

const START: &str = "rnbqkbnr/pppppppp/8/8/8/8/PPPPPPPP/RNBQKBNR w KQkq - 0 1";
const KIWIPETE: &str = "r3k2r/p1ppqpb1/bn2pnp1/3PN3/1p2P3/2N2Q1p/PPPBBPPP/R3K2R w KQkq - 0 1";

fn board(fen: &str) -> Board {
    Board::new_from_fen(fen).expect("a valid position")
}

fn sq(name: &str) -> Coord {
    let chars: Vec<char> = name.chars().collect();
    Board::parse_coord(&chars).expect("a square")
}

fn ply(from: &str, to: &str) -> Ply {
    Ply { origin: sq(from), destination: sq(to), promotion: None }
}

fn king_of(b: &Board, p: Player) -> Coord {
    b.find_king(p)
}

#[test]
fn make_move_leaves_receiver_unchanged() {
    let b1 = board(START);
    let copy = b1.clone();
    let b2 = b1.make_move(ply("e2", "e4"));
    assert!(b1.same_position(&copy));
    assert_eq!(b1.half_move_clock, copy.half_move_clock);
    assert_eq!(b1.white_pieces, copy.white_pieces);
    assert!(!b2.same_position(&b1));
    let b3 = b1.make_move(ply("e2", "e4"));
    assert!(b2.same_position(&b3));
    assert_eq!(b2.en_passant_square, Some(sq("e3")));
    assert_eq!(b2.turn, Player::Black);
}

#[test]
fn no_legal_move_leaves_own_king_attacked() {
    for fen in [START, KIWIPETE, "8/2p5/3p4/KP5r/1R3p1k/8/4P1P1/8 w - - 0 1"] {
        let b = board(fen);
        for m in b.get_all_moves() {
            let child = b.make_move(m);
            let mover = b.turn;
            assert!(!child.is_square_attacked(king_of(&child, mover), mover.opponent()));
            for m2 in child.get_all_moves() {
                let grandchild = child.make_move(m2);
                let mover2 = child.turn;
                assert!(!grandchild.is_square_attacked(king_of(&grandchild, mover2), mover2.opponent()));
            }
        }
    }
}

#[test]
fn classic_pin_is_detected() {
    let b = board("8/2p5/3p4/KP5r/1R3p1k/4P3/6P1/8 b - - 0 1");
    let pawn = b.get_piece_by_coord(Coord { row: 3, col: 5 }).expect("the pawn on f4");
    assert_eq!(b.is_piece_pinned(pawn), Some(Coord { row: 0, col: -1 }));
    for m in b.get_legal_moves(Coord { row: 3, col: 5 }) {
        assert_eq!(m.destination.row, 3);
    }
}

#[test]
fn pinned_rook_stays_on_line() {
    // White rook on e2 pinned by the black rook on e8 against the king on e1.
    let b = board("4r2k/8/8/8/8/8/4R3/4K3 w - - 0 1");
    let rook = b.get_piece_by_coord(sq("e2")).unwrap();
    assert_eq!(b.is_piece_pinned(rook), Some(Coord { row: 1, col: 0 }));
    let moves = b.get_legal_moves(sq("e2"));
    assert_eq!(moves.len(), 6);
    for m in moves {
        assert_eq!(m.destination.col, 4);
    }
}

#[test]
fn pinned_knight_has_no_move() {
    let b = board("4r2k/8/8/8/8/8/4N3/4K3 w - - 0 1");
    assert!(b.get_legal_moves(sq("e2")).is_empty());
}

#[test]
fn double_check_allows_only_king_moves() {
    // Black king on e8 checked by the rook on e1 and the knight on d6.
    let b = board("4k3/8/3N4/8/8/8/8/4R1K1 b - - 0 1");
    assert_eq!(b.square_attacked_by_pieces(sq("e8"), Player::White).len(), 2);
    for m in b.get_all_moves() {
        assert_eq!(m.origin, sq("e8"));
    }
    let b = board("r3k3/8/3N4/8/8/8/8/4R1K1 b - - 0 1");
    assert!(b.get_legal_moves(sq("a8")).is_empty());
}

#[test]
fn single_check_block_or_capture() {
    // White king on e1 checked by the rook on e8; the bishop on c4 can block on e6 or e2.
    let b = board("4r2k/8/8/8/2B5/8/8/4K3 w - - 0 1");
    let mut dests: Vec<Coord> = b.get_legal_moves(sq("c4")).iter().map(|m| m.destination).collect();
    dests.sort_by_key(|c| (c.row, c.col));
    assert_eq!(dests, vec![sq("e2"), sq("e6")]);
}

#[test]
fn en_passant_refused_when_it_bares_the_king() {
    let b = board("8/2p5/3p4/KP5r/1R3p1k/8/4P1P1/8 w - - 0 1");
    let after = b.make_move(ply("e2", "e4"));
    assert_eq!(after.en_passant_square, Some(sq("e3")));
    let pawn = after.get_piece_by_coord(sq("f4")).unwrap();
    assert!(after.is_pawn_enpassant_pinned(pawn));
    assert!(!after.get_legal_moves(sq("f4")).iter().any(|m| m.destination == sq("e3")));
    assert!(!after.arbiter(&ply("f4", "e3")));
}

#[test]
fn en_passant_allowed_without_discovered_attack() {
    let b = board("4k3/8/8/8/5p2/8/4P3/4K3 w - - 0 1");
    let after = b.make_move(ply("e2", "e4"));
    let pawn = after.get_piece_by_coord(sq("f4")).unwrap();
    assert!(!after.is_pawn_enpassant_pinned(pawn));
    assert!(after.arbiter(&ply("f4", "e3")));
    let taken = after.make_move(ply("f4", "e3"));
    assert!(taken.get_piece_by_coord(sq("e4")).is_none());
    assert!(Board::check_everything(&taken));
    assert_eq!(taken.white_pieces.len(), 1);
}

#[test]
fn checkmate_is_a_win_for_the_other_side() {
    let b = board("rnb1kbnr/pppp1ppp/8/4p3/6Pq/5P2/PPPPP2P/RNBQKBNR w KQkq - 1 3");
    assert!(b.get_all_moves().is_empty());
    assert_eq!(b.verify_status(), Status::BWin);
    let b = board("6k1/5ppp/8/8/8/8/8/3R2K1 w - - 0 1").make_move(ply("d1", "d8"));
    assert_eq!(b.verify_status(), Status::WWin);
}

#[test]
fn stalemate_is_a_draw() {
    let b = board("7k/5Q2/6K1/8/8/8/8/8 b - - 0 1");
    assert!(b.get_all_moves().is_empty());
    assert_eq!(b.verify_status(), Status::Draw);
}

#[test]
fn fifty_moves_is_a_draw() {
    let b = board("4k3/8/8/8/8/8/8/Q3K3 w - - 100 80");
    assert_eq!(b.verify_status(), Status::Draw);
    let b = board("4k3/8/8/8/8/8/8/Q3K3 w - - 99 80");
    assert_eq!(b.verify_status(), Status::Ongoing);
    let after = b.make_move(ply("a1", "a2"));
    assert_eq!(after.half_move_clock, 100);
    assert_eq!(after.verify_status(), Status::Draw);
}

#[test]
fn ongoing_at_start() {
    assert_eq!(board(START).verify_status(), Status::Ongoing);
}

#[test]
fn castling_moves_the_rook_and_clears_rights() {
    let b = board("r3k2r/8/8/8/8/8/8/R3K2R w KQkq - 0 1");
    assert!(b.arbiter(&ply("e1", "g1")));
    assert!(b.arbiter(&ply("e1", "c1")));
    let after = b.make_move(ply("e1", "g1"));
    assert_eq!(after.get_piece_by_coord(sq("f1")).unwrap().kind, Kind::Rook);
    assert!(after.get_piece_by_coord(sq("h1")).is_none());
    assert_eq!(after.white_king_loc, sq("g1"));
    assert!(!after.white_can_oo && !after.white_can_ooo);
    assert!(after.black_can_oo && after.black_can_ooo);
    assert!(Board::check_everything(&after));
    let after = b.make_move(ply("h1", "h8"));
    assert!(!after.white_can_oo && !after.black_can_oo);
    assert!(after.white_can_ooo && after.black_can_ooo);
}

#[test]
fn castling_through_attack_is_refused() {
    let b = board("4k3/8/8/8/8/8/5r2/R3K2R w KQ - 0 1");
    assert!(!b.arbiter(&ply("e1", "g1")));
    assert!(b.arbiter(&ply("e1", "c1")));
    let b = board("4k3/8/8/8/8/8/3r4/R3K2R w KQ - 0 1");
    assert!(b.arbiter(&ply("e1", "g1")));
    assert!(!b.arbiter(&ply("e1", "c1")));
}

#[test]
fn promotion_fans_out() {
    let b = board("8/P6k/8/8/8/8/8/K7 w - - 0 1");
    let moves = b.get_legal_moves(sq("a7"));
    assert_eq!(moves.len(), 4);
    let promos: Vec<Option<Kind>> = moves.iter().map(|m| m.promotion).collect();
    assert_eq!(promos, vec![Some(Kind::Queen), Some(Kind::Rook), Some(Kind::Bishop), Some(Kind::Knight)]);
    let after = b.make_move(Ply { origin: sq("a7"), destination: sq("a8"), promotion: Some(Kind::Knight) });
    assert_eq!(after.get_piece_by_coord(sq("a8")).unwrap().kind, Kind::Knight);
    assert!(Board::check_everything(&after));
}

#[test]
fn capture_reindexes_the_piece_list() {
    let b = board(KIWIPETE);
    let before = b.black_pieces.len();
    let after = b.make_move(ply("e5", "f7"));
    assert_eq!(after.black_pieces.len(), before - 1);
    assert!(Board::check_everything(&after));
    for (i, p) in after.black_pieces.iter().enumerate() {
        assert_eq!(p.idx, i);
        assert_eq!(after.get_piece_by_coord(p.coord), Some(*p));
    }
    assert_eq!(after.half_move_clock, 0);
}

#[test]
fn consistency_check_catches_stale_index() {
    let mut b = board(START);
    assert!(Board::check_everything(&b));
    b.white_pieces[3].idx = 7;
    assert!(!Board::check_everything(&b));
}

#[test]
fn attack_detection() {
    let b = board(START);
    assert!(b.is_square_attacked(sq("e3"), Player::White));
    assert!(b.is_square_attacked(sq("f3"), Player::White));
    assert!(!b.is_square_attacked(sq("e4"), Player::White));
    assert!(b.is_square_attacked(sq("c6"), Player::Black));
    assert!(b.square_attacked_by_pieces(sq("e1"), Player::Black).is_empty());
}

#[test]
fn arbiter_rejects_wrong_side_and_illegal() {
    let b = board(START);
    assert!(b.arbiter(&ply("e2", "e4")));
    assert!(!b.arbiter(&ply("e7", "e5")));
    assert!(!b.arbiter(&ply("e2", "e5")));
    assert!(!b.arbiter(&ply("e4", "e5")));
}

#[test]
fn material_and_search() {
    assert_eq!(evaluate(board(START)), 0);
    assert_eq!(evaluate(board("4k3/8/8/8/8/8/8/Q3K3 w - - 0 1")), 900);
    assert_eq!(evaluate(board("4k3/8/8/8/8/8/8/Q3K3 b - - 0 1")), -900);
    assert_eq!(evaluate(board("4k3/pppppppp/8/8/8/8/8/R3K3 w - - 0 1")), -300);
    assert_eq!(search(board(START), 1), 0);
    // Black is mated: the side to move scores minus mate.
    let mated = board("rnb1kbnr/pppp1ppp/8/4p3/6Pq/5P2/PPPPP2P/RNBQKBNR w KQkq - 1 3");
    assert_eq!(search(mated, 2), -MATE);
    // White mates in one.
    assert_eq!(search(board("6k1/5ppp/8/8/8/8/8/3R2K1 w - - 0 1"), 2), MATE);
}

#[test]
fn fen_rejections() {
    assert!(Board::new_from_fen("not a fen").is_none());
    assert!(Board::new_from_fen("8/8/8/8/8/8/8/8 w - - 0 1").is_none());
    assert!(Board::new_from_fen("8p/8/8/8/8/8/8/K6k w - - 0 1").is_none());
    assert!(Board::new_from_fen("k7/8/8/8/8/8/8/KK6 w - - 0 1").is_none());
    assert!(Board::new_from_fen("k7/8/8/8/8/8/8/K7 x - - 0 1").is_none());
    assert!(Board::new_from_fen("k7/8/8/8/8/8/8/K7 w - \u{e9} 0 1").is_none());
    assert!(Board::new_from_fen("k7/8/8/8/8/8/pppppppppppppppppppp/K7 w - - 0 1").is_none());
    assert!(!chess_core::fen::fen_within_limits("k7/8/8/8/8/8/pppppppppppppppppppp/K7 w - - 0 1"));
    assert!(!chess_core::fen::fen_within_limits("k7/8/8/8/8/8/8/K7 w - \u{e9} 0 1"));
    assert!(Board::new_from_fen("k7/8/8/8/8/8/8/K7 b - - 7 1").is_some());
}

#[test]
fn fen_fields_are_read() {
    let b = board("rnbqkbnr/pppppppp/8/8/4P3/8/PPPP1PPP/RNBQKBNR b Kq e3 5 1");
    assert_eq!(b.turn, Player::Black);
    assert!(b.white_can_oo && !b.white_can_ooo && !b.black_can_oo && b.black_can_ooo);
    assert_eq!(b.en_passant_square, Some(sq("e3")));
    assert_eq!(b.half_move_clock, 5);
    assert_eq!(b.white_king_loc, sq("e1"));
    assert_eq!(b.black_king_loc, sq("e8"));
    assert_eq!(b.white_pieces.len(), 16);
    let p = b.get_piece_by_coord(sq("d8")).unwrap();
    assert_eq!((p.kind, p.player), (Kind::Queen, Player::Black));
    assert!(Board::check_everything(&b));
    assert!(chess_core::fen::fen_within_limits("rnbqkbnr/pppppppp/8/8/8/8/PPPPPPPP/RNBQKBNR w KQkq - 0 1"));
}

#[test]
fn notation_round_trip() {
    assert_eq!(Board::notation_conversion('e', 4), Some(Coord { row: 3, col: 4 }));
    assert_eq!(Board::notation_conversion('i', 4), None);
    assert_eq!(Board::notation_conversion('a', 9), None);
    assert_eq!(Board::reverse_notation_conversion(Coord { row: 3, col: 4 }), ('e', 4));
    assert_eq!(Board::reverse_notation_conversion(Coord { row: 8, col: 4 }), ('a', 0));
    let t: Vec<char> = "h8".chars().collect();
    assert_eq!(Board::parse_coord(&t), Some(Coord { row: 7, col: 7 }));
    let t: Vec<char> = "h9".chars().collect();
    assert_eq!(Board::parse_coord(&t), None);
    let t: Vec<char> = "e44".chars().collect();
    assert_eq!(Board::parse_coord(&t), None);
}

#[test]
fn move_tokens() {
    let o: Vec<char> = "e7".chars().collect();
    let d: Vec<char> = "e8".chars().collect();
    let n: Vec<char> = "k".chars().collect();
    let x: Vec<char> = "x".chars().collect();
    assert_eq!(
        Game::ply_from_tokens(&o, &d, Some(&n)),
        Some(Ply { origin: sq("e7"), destination: sq("e8"), promotion: Some(Kind::Knight) })
    );
    assert_eq!(
        Game::ply_from_tokens(&o, &d, Some(&x)),
        Some(Ply { origin: sq("e7"), destination: sq("e8"), promotion: None })
    );
    assert_eq!(Game::ply_from_tokens(&o, &x, None), None);
    let q: Vec<char> = "q".chars().collect();
    assert_eq!(Board::parse_promotion(&q), Some(Kind::Queen));
}

#[test]
fn threefold_repetition() {
    let mut g = Game::new().expect("the starting position");
    assert!(!g.verify_threefold_repetition());
    let shuffle = [("g1", "f3"), ("g8", "f6"), ("f3", "g1"), ("f6", "g8")];
    for _ in 0..2 {
        for (a, b) in shuffle {
            let next = g.states.last().unwrap().make_move(ply(a, b));
            g.states.push(next);
        }
    }
    assert!(g.verify_threefold_repetition());
    g.states.pop();
    assert!(!g.verify_threefold_repetition());
}

#[test]
fn game_from_fen() {
    let g = Game::new_from_fen(KIWIPETE).expect("a valid position");
    assert_eq!(g.states.len(), 1);
    assert!(Game::new_from_fen("bad").is_none());
}

#[test]
fn piece_glyphs() {
    assert_eq!(Kind::King.character(Player::White), '\u{2654}');
    assert_eq!(Kind::Pawn.character(Player::Black), '\u{265F}');
    assert_eq!(Player::White.opponent(), Player::Black);
    assert_eq!(Player::Black.home_row(), 7);
    assert_eq!(Player::White.advancing_direction(), Coord { row: 1, col: 0 });
    assert_eq!(Coord::find_dir_between_coords(Coord { row: 5, col: 5 }, Coord { row: 1, col: 1 }), Coord { row: 1, col: 1 });
    assert_eq!(Coord::find_dir_between_coords(Coord { row: 1, col: 5 }, Coord { row: 1, col: 1 }), Coord { row: 0, col: 1 });
}
