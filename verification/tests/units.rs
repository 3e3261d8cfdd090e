use turbochess::bits::{bit_scan64, lsb64, popcnt64, poplsb64, BitHelpers};
use turbochess::lookup::{between, d12_mask, d12_moves, hv_moves, knight_mask};
use turbochess::lookup::{oo_blockers, ooo_blockers, ooo_danger};
use turbochess::types::{BitBoard, BitBoardSubsetIter, Color, Direction};
use turbochess::types::{Move, MoveList, Piece, Square};

#[test]
fn lookup_test() {
    let bb = turbochess::lookup::line(6, 15) & d12_mask(6);
    println!("{bb}");
}

#[test]
fn bit_primitives() {
    assert_eq!(popcnt64(0), 0);
    assert_eq!(popcnt64(0xff), 8);
    assert_eq!(popcnt64(u64::MAX), 64);
    assert_eq!(bit_scan64(1), 0);
    assert_eq!(bit_scan64(0x8000000000000000), 63);
    assert_eq!(bit_scan64(0b101000), 3);
    assert_eq!(lsb64(0b101000), 0b1000);
    assert_eq!(lsb64(0), 0);
    assert_eq!(poplsb64(0b101000), 0b100000);
    assert_eq!(poplsb64(0), 0);
    assert_eq!(0b101000u64.get_lsb(), 0b1000);
    assert_eq!(0b101000u64.pop_lsb(), 0b100000);
    assert_eq!(0b101000u64.bit_count(), 2);
    assert_eq!(0b101000u64.bit_scan(), 3);
    assert_eq!(1u64.offset(8, 0), 1 << 8);
    assert_eq!(0x100u64.offset(8, 1), 1);
}

#[test]
fn move_encoding_roundtrip() {
    let mv = Move::new(12, 28, Move::QUIET);
    assert_eq!(mv.from(), 12);
    assert_eq!(mv.to(), 28);
    assert_eq!(mv.flag(), Move::QUIET);
    assert!(!mv.is_capture());
    let pc = Move::new(52, 61, Move::PC_Q);
    assert_eq!(pc.from(), 52);
    assert_eq!(pc.to(), 61);
    assert_eq!(pc.flag(), Move::PC_Q);
    assert!(pc.is_capture());
    let ep = Move::new(36, 43, Move::EN_PASSANT);
    assert!(ep.is_capture());
}

#[test]
fn move_uci_format() {
    assert_eq!(Move::new(12, 28, Move::QUIET).uci(), "e2e4");
    assert_eq!(Move::new(52, 60, Move::PR_Q).uci(), "e7e8q");
    assert_eq!(Move::new(48, 57, Move::PC_N).uci(), "a7b8n");
    assert_eq!(Move::new(4, 6, Move::CASTLE_00).uci(), "e1g1");
}

#[test]
fn square_names() {
    assert_eq!(Square::from_str("a1"), 0);
    assert_eq!(Square::from_str("h8"), 63);
    assert_eq!(Square::from_str("E4"), 28);
    assert_eq!(Square::to_string(0), "a1");
    assert_eq!(Square::to_string(28), "e4");
    assert_eq!(Square::to_string(63), "h8");
}

#[test]
fn piece_letters() {
    assert_eq!(Piece::from_char('p'), Piece::PAWN);
    assert_eq!(Piece::from_char('K'), Piece::KING);
    assert_eq!(Piece::from_char('N'), Piece::KNIGHT);
    assert_eq!(Piece::to_char(Piece::QUEEN), 'q');
}

#[test]
fn shifts_and_ranks() {
    assert_eq!(BitBoard::shift_dir(1 << 0, Direction::North), 1 << 8);
    assert_eq!(BitBoard::shift_dir(1 << 8, Direction::South), 1 << 0);
    // shifting off the h-file drops the square instead of wrapping
    assert_eq!(BitBoard::shift_dir(1 << 7, Direction::East), 0);
    assert_eq!(BitBoard::shift_dir(1 << 0, Direction::West), 0);
    assert_eq!(BitBoard::shift_dir(1 << 9, Direction::NorthEast), 1 << 18);
    assert_eq!(BitBoard::relative_rank(1, Color::WHITE), 0xff);
    assert_eq!(BitBoard::relative_rank(1, Color::BLACK), 0xff00000000000000);
    assert_eq!(BitBoard::relative_rank(4, Color::WHITE), 0xff000000);
    assert_eq!(
        Direction::North.relative(Color::BLACK),
        Direction::South
    );
    assert_eq!(
        Direction::NorthEast.relative(Color::BLACK),
        Direction::SouthWest
    );
    assert_eq!(Direction::East.relative(Color::WHITE), Direction::East);
}

#[test]
fn attack_masks() {
    // a knight in the corner reaches exactly two squares
    assert_eq!(knight_mask(0), (1 << 10) | (1 << 17));
    // rook on an empty board sweeps its rank and file
    assert_eq!(hv_moves(0, 0), 0x01010101010101fe);
    // bishop on an empty board sweeps the long diagonal
    assert_eq!(d12_moves(0, 0), 0x8040201008040200);
    // a blocker stops the ray just past itself
    assert_eq!(hv_moves(0, 1 << 8) & (1 << 16), 0);
    assert_ne!(hv_moves(0, 1 << 8) & (1 << 8), 0);
    assert_eq!(between(0, 7), 0x7e);
    assert_eq!(turbochess::lookup::line(0, 7), 0xff);
    assert_eq!(between(0, 63), 0x0040201008040200);
    assert_eq!(between(0, 10), 0);
    assert_eq!(oo_blockers(0), 0x60);
    assert_eq!(ooo_blockers(0), 0xe);
    assert_eq!(ooo_danger(0), 0x2);
    assert_eq!(oo_blockers(1), 0x6000000000000000);
}

#[test]
fn movelist_operations() {
    let mut list = MoveList::new();
    assert_eq!(list.count(), 0);
    list.add(0, 8, Move::QUIET);
    list.add(0, 16, Move::CAPTURE);
    list.add_promotions(48, 56, false);
    list.add_promotions(49, 57, true);
    assert_eq!(list.count(), 10);
    assert_eq!(list.count_captures(), 5);
    assert_eq!(list.count_promotions(), 8);
    assert_eq!(list.count_enpassants(), 0);
    assert_eq!(list.count_castles(), 0);
    list.add(4, 6, Move::CASTLE_00);
    list.add(36, 43, Move::EN_PASSANT);
    assert_eq!(list.count_castles(), 1);
    assert_eq!(list.count_enpassants(), 1);
    assert_eq!(list.get(0).to(), 8);
    let rev = list.rev();
    assert_eq!(rev.count(), list.count());
    assert_eq!(rev.get(0).flag(), Move::EN_PASSANT);
}

#[test]
fn movelist_filters() {
    let mut list = MoveList::new();
    list.add(0, 8, Move::QUIET);
    list.add(0, 16, Move::QUIET);
    list.add(1, 8, Move::QUIET);
    let mut by_from = list;
    by_from.filter_from(0);
    assert_eq!(by_from.count(), 2);
    assert_eq!(by_from.get(0).to(), 8);
    assert_eq!(by_from.get(1).to(), 16);
    let mut by_to = list;
    by_to.filter_to(8);
    assert_eq!(by_to.count(), 2);
    assert_eq!(by_to.get(1).from(), 1);
    let mut by_from_bb = list;
    by_from_bb.filter_from_bb(1 << 1);
    assert_eq!(by_from_bb.count(), 1);
    let mut by_to_bb = list;
    by_to_bb.filter_to_bb((1 << 8) | (1 << 16));
    assert_eq!(by_to_bb.count(), 3);
}

#[test]
fn movelist_extend_emits_each_bit() {
    let mut list = MoveList::new();
    list.extend(0, (1 << 8) | (1 << 16) | (1 << 24), Move::QUIET);
    assert_eq!(list.count(), 3);
    assert_eq!(list.get(0).to(), 8);
    assert_eq!(list.get(1).to(), 16);
    assert_eq!(list.get(2).to(), 24);
}

#[test]
fn subset_iteration() {
    let mut it = BitBoardSubsetIter::new(0b101);
    assert_eq!(it.next(), Some(0));
    assert_eq!(it.next(), Some(0b001));
    assert_eq!(it.next(), Some(0b100));
    assert_eq!(it.next(), Some(0b101));
    assert_eq!(it.next(), None);
}
