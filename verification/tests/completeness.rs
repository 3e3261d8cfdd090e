use std::str::FromStr;

use turbochess::lookup::{d12_moves, hv_moves, king_mask, knight_mask, pawn_attacks};
use turbochess::types::{Move, Piece};
use turbochess::{Position, State};

const KIWIPETE: &str = "r3k2r/p1ppqpb1/bn2pnp1/3PN3/1p2P3/2N2Q1p/PPPBBPPP/R3K2R w KQkq - 0 1";

fn bit(bb: u64, s: usize) -> bool {
    (bb >> s) & 1 == 1
}

/// A square is safe for the mover's king when no opponent piece attacks it.
fn square_safe(pos: &Position, sq: usize, them: usize, occ: u64) -> bool {
    pos.attackers_from(sq, them, occ) == 0 && king_mask(sq) & pos.bb_of(them, Piece::KING) == 0
}

/// Enumerates every legal move by brute force: every applicable pseudo-move
/// whose geometry fits the piece and whose post-state leaves the mover's
/// king unattacked.
fn reference_moves(pos: &Position) -> Vec<Move> {
    let st = pos.actual_state();
    let turn = st.turn;
    let them = 1 - turn;
    let occ = pos.occupancy();
    let mut out = Vec::new();
    for from in 0..64usize {
        for to in 0..64usize {
            for flag in 0..14usize {
                let mv = Move::new(from, to, flag);
                if !pos.move_applies(mv) {
                    continue;
                }
                let geometry_ok = match flag {
                    Move::QUIET | Move::CAPTURE => {
                        let p = pos.piece_on(from).unwrap();
                        match p {
                            Piece::PAWN => {
                                let last_rank = if turn == 0 { to >= 56 } else { to < 8 };
                                if last_rank {
                                    false
                                } else if flag == Move::QUIET {
                                    (turn == 0 && to == from + 8)
                                        || (turn == 1 && from == to + 8)
                                } else {
                                    bit(pawn_attacks(turn, from), to)
                                }
                            }
                            Piece::KNIGHT => bit(knight_mask(from), to),
                            Piece::BISHOP => bit(d12_moves(from, occ), to),
                            Piece::ROOK => bit(hv_moves(from, occ), to),
                            Piece::QUEEN => {
                                bit(hv_moves(from, occ) | d12_moves(from, occ), to)
                            }
                            _ => bit(king_mask(from), to),
                        }
                    }
                    Move::DOUBLE_PUSH => pos.piece_on((from + to) / 2).is_none(),
                    Move::EN_PASSANT => bit(pawn_attacks(turn, from), to),
                    Move::CASTLE_00 => {
                        st.can_castle(State::short(turn)) && !pos.in_check()
                            && square_safe(pos, State::short_rook(turn) - 2, them, occ)
                            && square_safe(pos, State::short_king_target(turn), them, occ)
                    }
                    Move::CASTLE_000 => {
                        st.can_castle(State::long(turn)) && !pos.in_check()
                            && square_safe(pos, State::long_king_target(turn), them, occ)
                            && square_safe(pos, State::long_rook(turn) + 3, them, occ)
                    }
                    _ => {
                        // promotions, capturing or not
                        let from_ok = if turn == 0 {
                            48 <= from && from < 56 && to >= 56
                        } else {
                            8 <= from && from < 16 && to < 8
                        };
                        from_ok
                            && if flag < Move::PC_N {
                                (turn == 0 && to == from + 8) || (turn == 1 && from == to + 8)
                            } else {
                                bit(pawn_attacks(turn, from), to)
                            }
                    }
                };
                if !geometry_ok {
                    continue;
                }
                let mut p2 = *pos;
                p2.make_move(mv);
                let k = p2.king(turn);
                if square_safe(&p2, k, them, p2.occupancy()) {
                    out.push(mv);
                }
            }
        }
    }
    out
}

fn check_position(pos: &Position, label: &str) {
    let reference = reference_moves(pos);
    let moves = pos.legal();
    let mut generated = Vec::new();
    for i in 0..moves.count() {
        generated.push(moves.get(i));
    }
    for mv in &reference {
        assert!(
            generated.contains(mv),
            "{label}: missing {} flag {} in {}",
            mv.uci(),
            mv.flag(),
            pos.fen()
        );
    }
    for mv in &generated {
        assert!(
            reference.contains(mv),
            "{label}: extra {} flag {} in {}",
            mv.uci(),
            mv.flag(),
            pos.fen()
        );
    }
}

#[test]
fn generator_matches_reference() {
    let pos = Position::from_str(KIWIPETE).unwrap();
    check_position(&pos, "root");
    let moves = pos.legal();
    for i in 0..moves.count() {
        let mv = moves.get(i);
        let mut p = pos;
        p.make_move(mv);
        check_position(&p, &mv.uci());
    }
}
