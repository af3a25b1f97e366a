use chess_core::board::Board;
use chess_core::perft::perft;

const START: &str = "rnbqkbnr/pppppppp/8/8/8/8/PPPPPPPP/RNBQKBNR w KQkq - 0 1";
const KIWIPETE: &str = "r3k2r/p1ppqpb1/bn2pnp1/3PN3/1p2P3/2N2Q1p/PPPBBPPP/R3K2R w KQkq - 0 1";
const ROOK_ENDGAME: &str = "8/2p5/3p4/KP5r/1R3p1k/8/4P1P1/8 w - - 0 1";
const PROMOTIONS: &str = "r3k2r/Pppp1ppp/1b3nbN/nP6/BBP1P3/q4N2/Pp1P2PP/R2Q1RK1 w kq - 0 1";
const TALKCHESS: &str = "rnbq1k1r/pp1Pbppp/2p5/8/2B5/8/PPP1NnPP/RNBQK2R w KQ - 1 8";
const SYMMETRIC: &str = "r4rk1/1pp1qppp/p1np1n2/2b1p1B1/2B1P1b1/P1NP1N2/1PP1QPPP/R4RK1 w - - 0 10";

fn board(fen: &str) -> Board {
    Board::new_from_fen(fen).expect("a valid position")
}

#[test]
fn start_position_depth_one() {
    assert_eq!(perft(&board(START), 1), 20);
}

#[test]
fn start_position_depth_two() {
    assert_eq!(perft(&board(START), 2), 400);
}

#[test]
fn start_position_depth_three() {
    assert_eq!(perft(&board(START), 3), 8902);
}

#[test]
fn kiwipete_depth_one() {
    assert_eq!(perft(&board(KIWIPETE), 1), 48);
}

#[test]
fn kiwipete_depth_two() {
    assert_eq!(perft(&board(KIWIPETE), 2), 2039);
}

#[test]
fn rook_endgame_shallow() {
    let b = board(ROOK_ENDGAME);
    assert_eq!(perft(&b, 1), 14);
    assert_eq!(perft(&b, 2), 191);
    assert_eq!(perft(&b, 3), 2812);
}

#[test]
fn promotions_position_shallow() {
    let b = board(PROMOTIONS);
    assert_eq!(perft(&b, 1), 6);
    assert_eq!(perft(&b, 2), 264);
    assert_eq!(perft(&b, 3), 9467);
}

#[test]
fn talkchess_position_shallow() {
    let b = board(TALKCHESS);
    assert_eq!(perft(&b, 1), 44);
    assert_eq!(perft(&b, 2), 1486);
}

#[test]
fn symmetric_position_shallow() {
    let b = board(SYMMETRIC);
    assert_eq!(perft(&b, 1), 46);
    assert_eq!(perft(&b, 2), 2079);
}

#[test]
fn depth_one_counts_legal_moves() {
    for fen in [START, KIWIPETE, ROOK_ENDGAME, PROMOTIONS, TALKCHESS, SYMMETRIC] {
        let b = board(fen);
        assert_eq!(perft(&b, 1), b.get_all_moves().len() as u64);
    }
}

#[test]
fn depth_zero_is_one() {
    assert_eq!(perft(&board(KIWIPETE), 0), 1);
}

#[test]
fn start_position_depth_four() {
    assert_eq!(perft(&board(START), 4), 197281);
}

#[test]
fn kiwipete_depth_three() {
    assert_eq!(perft(&board(KIWIPETE), 3), 97862);
}
