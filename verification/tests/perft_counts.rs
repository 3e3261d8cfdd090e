use std::str::FromStr;

use turbochess::testing::{perft, perft_complete};
use turbochess::Position;

const START: &str = "rnbqkbnr/pppppppp/8/8/8/8/PPPPPPPP/RNBQKBNR w KQkq - 0 1";
const KIWIPETE: &str = "r3k2r/p1ppqpb1/bn2pnp1/3PN3/1p2P3/2N2Q1p/PPPBBPPP/R3K2R w KQkq - 0 1";
const POSITION_5: &str = "rnbq1k1r/pp1Pbppp/2p5/8/2B5/8/PPP1NnPP/RNBQK2R w KQ - 1 8";

#[test]
fn perft_start_shallow() {
    let pos = Position::from_str(START).unwrap();
    assert_eq!(perft(pos, 1), 20);
    assert_eq!(perft(pos, 2), 400);
    assert_eq!(perft(pos, 3), 8902);
}

#[test]
fn perft_start_depth_four() {
    let pos = Position::from_str(START).unwrap();
    assert_eq!(perft(pos, 4), 197281);
}

#[test]
fn perft_kiwipete() {
    let pos = Position::from_str(KIWIPETE).unwrap();
    assert_eq!(perft(pos, 1), 48);
    assert_eq!(perft(pos, 2), 2039);
    assert_eq!(perft(pos, 3), 97862);
}

#[test]
fn perft_position_five() {
    let pos = Position::from_str(POSITION_5).unwrap();
    assert_eq!(perft(pos, 1), 44);
    assert_eq!(perft(pos, 2), 1486);
    assert_eq!(perft(pos, 3), 62379);
}

#[test]
fn perft_complete_counts() {
    let pos = Position::from_str(KIWIPETE).unwrap();
    let mut cps = 0;
    let mut eps = 0;
    let mut cast = 0;
    let mut proms = 0;
    let mut checks = 0;
    let mut mates = 0;
    let nodes = perft_complete(pos, 1, &mut cps, &mut eps, &mut cast, &mut proms, &mut checks,
        &mut mates);
    assert_eq!(nodes, 48);
    assert_eq!(cps, 8);
    assert_eq!(eps, 0);
    assert_eq!(cast, 2);
    assert_eq!(proms, 0);
    assert_eq!(checks, 0);
    assert_eq!(mates, 0);
}

#[test]
fn perft_tests() {
    let pos = Position::from_str(START).unwrap();
    assert_eq!(perft(pos, 3), 8902);
    assert_eq!(perft(pos, 4), 197281);
    assert_eq!(perft(pos, 5), 4865609);
    let pos = Position::from_str(KIWIPETE).unwrap();
    assert_eq!(perft(pos, 2), 2039);
    assert_eq!(perft(pos, 3), 97862);
    let pos = Position::from_str(POSITION_5).unwrap();
    assert_eq!(perft(pos, 3), 62379);
    assert_eq!(perft(pos, 4), 2103487);
}

#[test]
fn perft_start_depth_five() {
    let pos = Position::from_str(START).unwrap();
    assert_eq!(perft(pos, 5), 4865609);
}

#[test]
fn perft_kiwipete_depth_four() {
    let pos = Position::from_str(KIWIPETE).unwrap();
    assert_eq!(perft(pos, 4), 4085603);
}

#[test]
fn perft_position_five_depth_four() {
    let pos = Position::from_str(POSITION_5).unwrap();
    assert_eq!(perft(pos, 4), 2103487);
}
