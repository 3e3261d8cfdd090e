use std::str::FromStr;

use turbochess::testing::perft;
use turbochess::types::{Move, Piece};
use turbochess::{Position, State};

const START: &str = "rnbqkbnr/pppppppp/8/8/8/8/PPPPPPPP/RNBQKBNR w KQkq - 0 1";
const KIWIPETE: &str = "r3k2r/p1ppqpb1/bn2pnp1/3PN3/1p2P3/2N2Q1p/PPPBBPPP/R3K2R w KQkq - 0 1";

#[test]
fn test_movegen() {
    let pos = Position::from_str("B3n1N1/b3P1PK/R1P1P3/7R/4p3/8/7Q/6k1 b - - 0 2").unwrap();
    println!("{}", pos.board_string());
    let legal = pos.legal();
    for i in 0..legal.count() {
        let mv = legal.get(i);
        println!("{}", mv.uci());
    }
}

#[test]
fn state_basics() {
    let st = State::new();
    assert_eq!(st.turn, 0);
    assert_eq!(st.castling, 0);
    assert!(!st.can_castle(State::WHITE_00));
    let pos = Position::from_str(START).unwrap();
    let st = pos.actual_state();
    assert!(st.can_castle(State::WHITE_00));
    assert!(st.can_castle(State::BLACK_000));
    assert_eq!(st.hm, 0);
    assert_eq!(st.fm, 1);
}

#[test]
fn start_position_board() {
    let pos = Position::from_str(START).unwrap();
    assert_eq!(pos.occupancy(), 0xffff00000000ffff);
    assert_eq!(pos.colors(0), 0xffff);
    assert_eq!(pos.colors(1), 0xffff000000000000);
    assert_eq!(pos.king(0), 4);
    assert_eq!(pos.king(1), 60);
    assert_eq!(pos.piece_on(4), Some(Piece::KING));
    assert_eq!(pos.color_on(4), Some(0));
    assert_eq!(pos.piece_on(27), None);
    assert_eq!(pos.color_on(27), None);
    assert_eq!(pos.bb_of(0, Piece::PAWN), 0xff00);
    assert_eq!(pos.pieces(Piece::PAWN), 0x00ff00000000ff00);
    assert_eq!(pos.hv_sliders(0), 0x81 | 0x8);
    assert_eq!(pos.d12_sliders(0), 0x24 | 0x8);
    assert!(!pos.in_check());
    assert_eq!(pos.checkmask(), u64::MAX);
    assert_eq!(pos.pinned(), 0);
}

#[test]
fn fen_round_trip() {
    for fen in [
        START,
        KIWIPETE,
        "rnbq1k1r/pp1Pbppp/2p5/8/2B5/8/PPP1NnPP/RNBQK2R w KQ - 1 8",
        "8/2p5/3p4/KP5r/1R3p1k/8/4P1P1/8 w - - 12 34",
        "4k3/8/8/8/8/8/8/4K3 w - - 0 1",
        "rnbqkbnr/pppppppp/8/8/4P3/8/PPPP1PPP/RNBQKBNR b KQkq e3 0 1",
    ] {
        let pos = Position::from_str(fen).unwrap();
        assert_eq!(pos.fen(), fen);
    }
}

#[test]
fn fen_rejects_bad_input() {
    assert!(Position::from_str("").is_err());
    assert!(Position::from_str("not a fen").is_err());
    // a rank with too many squares
    assert!(Position::from_str("9/8/8/8/8/8/8/8 w - - 0 1").is_err());
    // an unknown piece letter
    assert!(Position::from_str("rnbqxbnr/pppppppp/8/8/8/8/PPPPPPPP/RNBQKBNR w KQkq - 0 1").is_err());
    // a missing king
    assert!(Position::from_str("8/8/8/8/8/8/8/4K3 w - - 0 1").is_err());
    // two kings of one color
    assert!(Position::from_str("4k3/8/8/8/8/8/8/3KK3 w - - 0 1").is_err());
    // a missing field
    assert!(Position::from_str("4k3/8/8/8/8/8/8/4K3 w - -").is_err());
}

#[test]
fn make_undo_round_trip() {
    let pos = Position::from_str(KIWIPETE).unwrap();
    let moves = pos.legal();
    assert_eq!(moves.count(), 48);
    for i in 0..moves.count() {
        let mv = moves.get(i);
        let mut p = pos;
        assert!(p.move_applies(mv));
        p.make_move(mv);
        p.undo_move(mv);
        assert_eq!(p, pos, "round trip failed for {}", mv.uci());
    }
}

#[test]
fn hash_is_incremental() {
    let mut pos = Position::from_str(START).unwrap();
    let h0 = pos.hash(false);
    // knights out and back: a transposition must rejoin the same hash
    for uci in [(6usize, 21usize), (57, 42), (21, 6), (42, 57)] {
        let mv = Move::new(uci.0, uci.1, Move::QUIET);
        assert!(pos.move_applies(mv));
        pos.make_move(mv);
        assert_eq!(pos.recompute_hash(), pos.hash);
    }
    assert_eq!(pos.hash(false), h0);
    assert_eq!(pos.recompute_hash(), pos.hash);
    assert_eq!(pos.fen(), "rnbqkbnr/pppppppp/8/8/8/8/PPPPPPPP/RNBQKBNR w KQkq - 4 3");
}

#[test]
fn capture_and_castle_counts() {
    let pos = Position::from_str(KIWIPETE).unwrap();
    let moves = pos.legal();
    assert_eq!(moves.count(), 48);
    assert_eq!(moves.count_captures(), 8);
    assert_eq!(moves.count_castles(), 2);
    assert_eq!(moves.count_enpassants(), 0);
    assert_eq!(moves.count_promotions(), 0);
}

#[test]
fn double_check_allows_only_king_moves() {
    // rook on the e-file and bishop on c3 both give check
    let pos = Position::from_str("4k3/4r3/8/8/8/2b5/8/4K3 w - - 0 1").unwrap();
    assert!(pos.in_check());
    let moves = pos.legal();
    assert!(moves.count() > 0);
    for i in 0..moves.count() {
        assert_eq!(moves.get(i).from(), 4);
    }
}

#[test]
fn en_passant_discovered_check_is_illegal() {
    // capturing en passant would clear the fifth rank for the rook
    let pos = Position::from_str("7k/8/8/K1pP3r/8/8/8/8 w - c6 0 1").unwrap();
    let moves = pos.legal();
    assert_eq!(moves.count_enpassants(), 0);
    // without the rook the same capture is legal
    let pos = Position::from_str("7k/8/8/2pP4/8/8/8/4K3 w - c6 0 1").unwrap();
    let moves = pos.legal();
    assert_eq!(moves.count_enpassants(), 1);
}

#[test]
fn en_passant_resolves_pawn_check() {
    // the checking piece is the pawn that en passant captures
    let pos = Position::from_str("8/8/8/2k5/2pP4/8/8/7K b - d3 0 1").unwrap();
    assert!(pos.in_check());
    let moves = pos.legal();
    assert_eq!(moves.count_enpassants(), 1);
}

#[test]
fn promotion_moves_are_generated() {
    let pos = Position::from_str("3n4/4P3/8/8/8/8/8/k3K3 w - - 0 1").unwrap();
    let moves = pos.legal();
    // four quiet promotions and four capturing promotions
    assert_eq!(moves.count_promotions(), 8);
    assert_eq!(moves.count_captures(), 4);
}

#[test]
fn legality_soundness_on_sample_positions() {
    // every legal move leaves the mover's king out of check
    for fen in [START, KIWIPETE, "B3n1N1/b3P1PK/R1P1P3/7R/4p3/8/7Q/6k1 b - - 0 2"] {
        let pos = Position::from_str(fen).unwrap();
        let mover = pos.actual_state().turn;
        let moves = pos.legal();
        for i in 0..moves.count() {
            let mv = moves.get(i);
            let mut p = pos;
            assert!(p.move_applies(mv), "{} does not apply", mv.uci());
            p.make_move(mv);
            let king = p.king(mover);
            let attackers = p.attackers_from(king, 1 - mover, p.occupancy());
            assert_eq!(attackers, 0, "{} leaves the king attacked", mv.uci());
        }
    }
}

#[test]
fn perft_depth_zero_and_one() {
    let pos = Position::from_str(START).unwrap();
    assert_eq!(perft(pos, 0), 1);
    assert_eq!(perft(pos, 1), 20);
}

#[test]
fn king_capture_on_corner_clears_castling_right() {
    // the white king takes the rook on h8: black's king-side right goes
    let mut pos = Position::from_str("4k2r/6K1/8/8/8/8/8/8 w k - 0 1").unwrap();
    let mv = Move::new(54, 63, Move::CAPTURE);
    assert!(pos.move_applies(mv));
    pos.make_move(mv);
    assert_eq!(pos.fen(), "4k2K/8/8/8/8/8/8/8 b - - 0 1");
}

#[test]
fn capture_tally_excludes_en_passant() {
    let pos = Position::from_str("7k/8/8/2pP4/8/8/8/4K3 w - c6 0 1").unwrap();
    let moves = pos.legal();
    assert_eq!(moves.count_enpassants(), 1);
    assert_eq!(moves.count_captures(), 0);
}

#[test]
fn board_string_draws_the_grid() {
    let pos = Position::from_str(START).unwrap();
    let expected = "  +-----------------+\n\
8 | r n b q k b n r |\n\
7 | p p p p p p p p |\n\
6 | . . . . . . . . |\n\
5 | . . . . . . . . |\n\
4 | . . . . . . . . |\n\
3 | . . . . . . . . |\n\
2 | P P P P P P P P |\n\
1 | R N B Q K B N R |\n\
\x20 +-----------------+\n\
\x20   a b c d e f g h";
    assert_eq!(pos.board_string(), expected);
}

#[test]
fn default_position_serializes_to_start_fen() {
    let pos = Position::default();
    assert_eq!(pos.fen(), START);
    assert_eq!(pos.legal().count(), 20);
}
