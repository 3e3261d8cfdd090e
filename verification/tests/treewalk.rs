use std::str::FromStr;

use turbochess::lookup::{d12_moves, hv_moves, king_mask, knight_mask, pawn_attacks};
use turbochess::types::{Move, Piece};
use turbochess::Position;

const POSITION_5: &str = "rnbq1k1r/pp1Pbppp/2p5/8/2B5/8/PPP1NnPP/RNBQK2R w KQ - 1 8";

fn bit(bb: u64, s: usize) -> bool {
    (bb >> s) & 1 == 1
}

/// Every emitted move must fit its piece's geometry.
fn geometry_ok(pos: &Position, mv: Move) -> bool {
    let from = mv.from();
    let to = mv.to();
    let flag = mv.flag();
    let turn = pos.actual_state().turn;
    let occ = pos.occupancy();
    match flag {
        Move::QUIET | Move::CAPTURE => {
            let p = match pos.piece_on(from) {
                Some(p) => p,
                None => return false,
            };
            match p {
                Piece::PAWN => {
                    let last_rank = if turn == 0 { to >= 56 } else { to < 8 };
                    if last_rank {
                        false
                    } else if flag == Move::QUIET {
                        (turn == 0 && to == from + 8) || (turn == 1 && from == to + 8)
                    } else {
                        bit(pawn_attacks(turn, from), to)
                    }
                }
                Piece::KNIGHT => bit(knight_mask(from), to),
                Piece::BISHOP => bit(d12_moves(from, occ), to),
                Piece::ROOK => bit(hv_moves(from, occ), to),
                Piece::QUEEN => bit(hv_moves(from, occ) | d12_moves(from, occ), to),
                _ => bit(king_mask(from), to),
            }
        }
        Move::DOUBLE_PUSH => pos.piece_on((from + to) / 2).is_none(),
        Move::EN_PASSANT => bit(pawn_attacks(turn, from), to),
        Move::CASTLE_00 | Move::CASTLE_000 => true,
        _ => {
            let from_ok = if turn == 0 {
                48 <= from && from < 56 && to >= 56
            } else {
                8 <= from && from < 16 && to < 8
            };
            from_ok
                && if flag < Move::PC_N {
                    (turn == 0 && to == from + 8) || (turn == 1 && from == to + 8)
                } else {
                    bit(pawn_attacks(turn, from), to)
                }
        }
    }
}

fn walk(pos: &mut Position, depth: usize) {
    if depth == 0 {
        return;
    }
    let moves = pos.legal();
    let turn = pos.actual_state().turn;
    let them = 1 - turn;
    for i in 0..moves.count() {
        let mv = moves.get(i);
        for j in 0..i {
            assert!(moves.get(j) != mv, "duplicate {} in {}", mv.uci(), pos.fen());
        }
        assert!(
            geometry_ok(pos, mv),
            "bad geometry {} flag {} in {}",
            mv.uci(),
            mv.flag(),
            pos.fen()
        );
        assert!(pos.move_applies(mv), "{} does not apply in {}", mv.uci(), pos.fen());
        pos.make_move(mv);
        let k = pos.king(turn);
        assert!(
            pos.attackers_from(k, them, pos.occupancy()) == 0
                && king_mask(k) & pos.bb_of(them, Piece::KING) == 0,
            "unsound {} in {}",
            mv.uci(),
            pos.fen()
        );
        walk(pos, depth - 1);
        pos.undo_move(mv);
    }
}

#[test]
fn every_generated_move_is_sound() {
    let mut pos = Position::from_str(POSITION_5).unwrap();
    walk(&mut pos, 4);
}
