//! The reversible make/undo engine: applying a move updates the boards,
//! the castling rights, the en-passant target, the clocks and the hash;
//! undoing it restores the previous position bit for bit.

use vstd::prelude::*;

use crate::analysis::{masks_ok, spec_attacks, spec_checkmask, spec_pin_d12, spec_pin_hv};
use crate::bits::bb_bit;
use crate::position::{
    dims_ok, lemma_clear_scan_none, lemma_move_keeps_disjoint, lemma_put_keeps_disjoint,
    lemma_scan_none_clear, lemma_scan_unique, disjoint_ok, disjoint_pieces, hash_ok, history_ok, kings_ok, spec_castlings,
    spec_clear_sq, spec_king_start, spec_long, spec_long_king_target, spec_long_rook, spec_moved,
    spec_piece_on, spec_put_sq, spec_scan, spec_short, spec_short_king_target, spec_short_rook,
    spec_scan_p, state_empty, wf_core, zob_all, PosModel, Position, State,
};
use crate::types::{Move, Piece, Square};

verus! {

/// The boards after the piece on `f` steps to the free square `t`.
pub open spec fn model_moved(pieces: Seq<Seq<u64>>, f: usize, t: usize) -> Seq<Seq<u64>> {
    match spec_scan_p(pieces, f) {
        Some(cp) => spec_moved(pieces, cp.0, cp.1, f, t),
        None => pieces,
    }
}

/// Castling bits stripped when a rook corner is captured on `t`.
pub open spec fn strip_to_corner(cast: u8, t: usize) -> u8 {
    let c0 = if cast & 0b0001u8 != 0 && t == 7 {
        cast & 0b11111110u8
    } else {
        cast
    };
    let c1 = if c0 & 0b0010u8 != 0 && t == 0 {
        c0 & 0b11111101u8
    } else {
        c0
    };
    let c2 = if c1 & 0b0100u8 != 0 && t == 63 {
        c1 & 0b11111011u8
    } else {
        c1
    };
    if c2 & 0b1000u8 != 0 && t == 56 {
        c2 & 0b11110111u8
    } else {
        c2
    }
}

/// Castling bits stripped when the mover's rook leaves its corner.
pub open spec fn strip_rook_from(cast: u8, turn: usize, f: usize) -> u8 {
    let c0 = if cast & spec_short(turn) != 0 && f == spec_short_rook(turn) {
        cast & !spec_short(turn)
    } else {
        cast
    };
    if c0 & spec_long(turn) != 0 && f == spec_long_rook(turn) {
        c0 & !spec_long(turn)
    } else {
        c0
    }
}

/// The piece a promotion flag promotes to.
pub open spec fn spec_promo_piece(fl: usize) -> usize {
    if fl >= 10 {
        (fl - 9) as usize
    } else {
        (fl - 5) as usize
    }
}

/// What a move needs from the position so that applying it is meaningful
/// and reversible: the mover's piece stands on the start square, the
/// destination suits the flag, captures take an opponent piece that is not
/// a king, and the clocks and the history have room left.
pub open spec fn move_ok(m: PosModel, mv: Move) -> bool {
    let f = mv.spec_from();
    let t = mv.spec_to();
    let fl = mv.spec_flag();
    let st = m.history[m.ply];
    let turn = st.turn;
    let them = (1 - turn) as usize;
    &&& m.ply + 1 < 216
    &&& turn < 2
    &&& f != t
    &&& st.hm < usize::MAX
    &&& st.fm < usize::MAX
    &&& if fl == 0 {
        spec_scan(m, f) matches Some(cp) && cp.0 == turn && spec_scan(m, t) is None
    } else if fl == 1 {
        &&& spec_scan(m, f) matches Some(cp) && cp.0 == turn
        &&& spec_scan(m, t) matches Some(cp) && cp.0 == them && cp.1 != 5
    } else if fl == 2 {
        &&& spec_scan(m, f) == Some((turn, 0usize))
        &&& spec_scan(m, t) is None
        &&& if turn == 0 {
            8 <= f < 16 && t == f + 16
        } else {
            48 <= f < 56 && t == f - 16
        }
    } else if fl == 3 {
        &&& st.ep == Some(t)
        &&& spec_scan(m, f) == Some((turn, 0usize))
        &&& spec_scan(m, t) is None
        &&& if turn == 0 {
            40 <= t < 48 && spec_scan(m, (t - 8) as usize) == Some((them, 0usize)) && f != t - 8
        } else {
            16 <= t < 24 && spec_scan(m, (t + 8) as usize) == Some((them, 0usize)) && f != t + 8
        }
    } else if fl == 4 {
        &&& f == spec_king_start(turn)
        &&& t == spec_short_king_target(turn)
        &&& spec_scan(m, spec_king_start(turn)) == Some((turn, 5usize))
        &&& spec_scan(m, spec_short_rook(turn)) == Some((turn, 3usize))
        &&& spec_scan(m, t) is None
        &&& spec_scan(m, (spec_short_rook(turn) - 2) as usize) is None
    } else if fl == 5 {
        &&& f == spec_king_start(turn)
        &&& t == spec_long_king_target(turn)
        &&& spec_scan(m, spec_king_start(turn)) == Some((turn, 5usize))
        &&& spec_scan(m, spec_long_rook(turn)) == Some((turn, 3usize))
        &&& spec_scan(m, t) is None
        &&& spec_scan(m, (spec_long_rook(turn) + 1) as usize) is None
        &&& spec_scan(m, (spec_long_rook(turn) + 3) as usize) is None
    } else if 6 <= fl <= 9 {
        &&& spec_scan(m, f) == Some((turn, 0usize))
        &&& spec_scan(m, t) is None
    } else if 10 <= fl <= 13 {
        &&& spec_scan(m, f) == Some((turn, 0usize))
        &&& spec_scan(m, t) matches Some(cp) && cp.0 == them && cp.1 != 5
    } else {
        false
    }
}

/// The boards after a move, mirroring the flag dispatch of `make_move`.
pub open spec fn spec_pieces_after(m: PosModel, mv: Move) -> Seq<Seq<u64>> {
    let f = mv.spec_from();
    let t = mv.spec_to();
    let fl = mv.spec_flag();
    let st = m.history[m.ply];
    let turn = st.turn;
    if fl == 0 || fl == 2 {
        model_moved(m.pieces, f, t)
    } else if fl == 1 {
        model_moved(spec_clear_sq(m.pieces, t), f, t)
    } else if fl == 3 {
        let behind = if turn == 0 {
            (t - 8) as usize
        } else {
            (t + 8) as usize
        };
        spec_clear_sq(model_moved(m.pieces, f, t), behind)
    } else if fl == 4 {
        model_moved(
            model_moved(m.pieces, spec_king_start(turn), spec_short_king_target(turn)),
            spec_short_rook(turn),
            (spec_short_rook(turn) - 2) as usize,
        )
    } else if fl == 5 {
        model_moved(
            model_moved(m.pieces, spec_king_start(turn), spec_long_king_target(turn)),
            spec_long_rook(turn),
            (spec_long_rook(turn) + 3) as usize,
        )
    } else if 6 <= fl <= 13 {
        spec_put_sq(
            spec_clear_sq(spec_clear_sq(m.pieces, f), t),
            turn,
            spec_promo_piece(fl),
            t,
        )
    } else {
        m.pieces
    }
}

/// The state frame pushed by a move.
pub open spec fn spec_state_after(m: PosModel, mv: Move) -> State {
    let f = mv.spec_from();
    let t = mv.spec_to();
    let fl = mv.spec_flag();
    let st = m.history[m.ply];
    let turn = st.turn;
    let moved_piece = spec_piece_on(m, f);
    let cast = if fl == 0 {
        let c1 = if moved_piece == Some(5usize) {
            st.castling & !spec_castlings(turn)
        } else {
            st.castling
        };
        if moved_piece == Some(3usize) {
            strip_rook_from(c1, turn, f)
        } else {
            c1
        }
    } else if fl == 1 {
        let c0 = strip_to_corner(st.castling, t);
        let c1 = if moved_piece == Some(5usize) {
            c0 & !spec_castlings(turn)
        } else {
            c0
        };
        if moved_piece == Some(3usize) {
            strip_rook_from(c1, turn, f)
        } else {
            c1
        }
    } else if fl == 4 || fl == 5 {
        st.castling & !spec_castlings(turn)
    } else if 10 <= fl <= 13 {
        strip_to_corner(st.castling, t)
    } else {
        st.castling
    };
    let ep = if fl == 2 {
        if turn == 0 {
            Some((f + 8) as usize)
        } else {
            Some((f - 8) as usize)
        }
    } else {
        None
    };
    let captured = if fl == 1 || 10 <= fl <= 13 {
        spec_piece_on(m, t)
    } else {
        None
    };
    let hm_reset = moved_piece == Some(0usize) || fl == 1 || 10 <= fl <= 13;
    let hm = if hm_reset {
        0
    } else {
        (st.hm + 1) as usize
    };
    let fm = if turn == 1 {
        (st.fm + 1) as usize
    } else {
        st.fm
    };
    State { turn: (1 - turn) as usize, castling: cast, captured, ep, hm, fm }
}

/// The model with its cached masks recomputed from its boards.
pub open spec fn with_masks(m: PosModel) -> PosModel {
    PosModel {
        checkmask: spec_checkmask(m),
        pin_hv: spec_pin_hv(m),
        pin_d12: spec_pin_d12(m),
        danger: spec_attacks(m),
        ..m
    }
}

/// The whole position after a move: boards, pushed frame, hash and masks.
pub open spec fn spec_make(m: PosModel, mv: Move) -> PosModel {
    let pieces2 = spec_pieces_after(m, mv);
    let core = PosModel {
        ply: m.ply + 1,
        pieces: pieces2,
        history: m.history.update(m.ply + 1, spec_state_after(m, mv)),
        hash: zob_all(pieces2),
        pin_hv: m.pin_hv,
        pin_d12: m.pin_d12,
        danger: m.danger,
        checkmask: m.checkmask,
    };
    with_masks(core)
}

impl Position {
    /// Makes a move without checking its legality: the caller must hand a
    /// move that fits the position, as every move from `legal` does.
    #[verifier::rlimit(100)]
    #[verifier::spinoff_prover]
    pub fn make_move(&mut self, mv: Move)
        requires
            wf_core(old(self)@),
            move_ok(old(self)@, mv),
        ensures
            final(self)@ == spec_make(old(self)@, mv),
            wf_core(final(self)@),
            masks_ok(final(self)@),
    {
        let ghost m0 = self@;
        let state = self.actual_state();
        let turn = state.turn;
        let f = mv.from();
        let t = mv.to();
        let flag = mv.flag();
        let moved_piece = self.piece_on(f);
        let mut ncast = state.castling;
        let mut nep: Option<usize> = None;
        let mut ncap: Option<usize> = None;
        let moved_pawn = match moved_piece {
            Some(p) => p == 0,
            None => false,
        };
        let mut hm_reset = moved_pawn;
        if flag == Move::QUIET {
            let moved_king = match moved_piece {
                Some(p) => p == 5,
                None => false,
            };
            let moved_rook = match moved_piece {
                Some(p) => p == 3,
                None => false,
            };
            if moved_king {
                ncast = ncast & !State::castlings(turn);
            }
            if moved_rook {
                let sh = State::short(turn);
                if ncast & sh != 0 && f == State::short_rook(turn) {
                    ncast = ncast & !sh;
                }
                let lo = State::long(turn);
                if ncast & lo != 0 && f == State::long_rook(turn) {
                    ncast = ncast & !lo;
                }
            }
            self.move_quiet(f, t);
        } else if flag == Move::DOUBLE_PUSH {
            self.move_quiet(f, t);
            nep = Some(
                if turn == 0 {
                    f + 8
                } else {
                    f - 8
                },
            );
        } else if flag == Move::CASTLE_00 {
            if turn == 0 {
                self.move_quiet(Square::E1, Square::G1);
                proof {
                    lemma_castle_step(m0.pieces, self@.pieces, 4, 6, 7, 5, turn);
                }
                self.move_quiet(Square::H1, Square::F1);
            } else {
                self.move_quiet(Square::E8, Square::G8);
                proof {
                    lemma_castle_step(m0.pieces, self@.pieces, 60, 62, 63, 61, turn);
                }
                self.move_quiet(Square::H8, Square::F8);
            }
            ncast = ncast & !State::castlings(turn);
        } else if flag == Move::CASTLE_000 {
            if turn == 0 {
                self.move_quiet(Square::E1, Square::C1);
                proof {
                    lemma_castle_step(m0.pieces, self@.pieces, 4, 2, 0, 3, turn);
                }
                self.move_quiet(Square::A1, Square::D1);
            } else {
                self.move_quiet(Square::E8, Square::C8);
                proof {
                    lemma_castle_step(m0.pieces, self@.pieces, 60, 58, 56, 59, turn);
                }
                self.move_quiet(Square::A8, Square::D8);
            }
            ncast = ncast & !State::castlings(turn);
        } else if flag == Move::EN_PASSANT {
            self.move_quiet(f, t);
            let behind = if turn == 0 {
                t - 8
            } else {
                t + 8
            };
            proof {
                let bp = (1 - turn) as usize;
                assert(bb_bit(self@.pieces[bp as int][0], behind as u64)) by {
                    lemma_moved_keeps_other_bits(m0.pieces, f, t, behind);
                }
            }
            self.unset_square(behind);
        } else if flag == Move::CAPTURE {
            let moved_king = match moved_piece {
                Some(p) => p == 5,
                None => false,
            };
            let moved_rook = match moved_piece {
                Some(p) => p == 3,
                None => false,
            };
            ncast = strip_corners(ncast, t);
            if moved_king {
                ncast = ncast & !State::castlings(turn);
            }
            if moved_rook {
                let sh = State::short(turn);
                if ncast & sh != 0 && f == State::short_rook(turn) {
                    ncast = ncast & !sh;
                }
                let lo = State::long(turn);
                if ncast & lo != 0 && f == State::long_rook(turn) {
                    ncast = ncast & !lo;
                }
            }
            hm_reset = true;
            ncap = self.piece_on(t);
            self.unset_square(t);
            proof {
                let cpf = spec_scan_p(m0.pieces, f)->Some_0;
                lemma_clear_keeps_other(m0.pieces, t, f);
                lemma_scan_unique(self@.pieces, cpf.0, cpf.1, f);
                lemma_clear_scan_none(m0.pieces, t);
            }
            self.move_quiet(f, t);
        } else {
            // promotions, capturing or not
            hm_reset = hm_reset || flag >= Move::PC_N;
            if flag >= Move::PC_N {
                ncap = self.piece_on(t);
                ncast = strip_corners(ncast, t);
            }
            let promo = if flag == Move::PR_N || flag == Move::PC_N {
                Piece::KNIGHT
            } else if flag == Move::PR_B || flag == Move::PC_B {
                Piece::BISHOP
            } else if flag == Move::PR_R || flag == Move::PC_R {
                Piece::ROOK
            } else {
                Piece::QUEEN
            };
            self.unset_square(f);
            proof {
                lemma_clear_keeps_other(m0.pieces, f, t);
                if 10 <= mv.spec_flag() <= 13 {
                    let cpt = spec_scan_p(m0.pieces, t)->Some_0;
                    lemma_scan_unique(self@.pieces, cpt.0, cpt.1, t);
                }
            }
            self.set_square(t, promo, turn);
        }
        let nhm = if hm_reset {
            0
        } else {
            state.hm + 1
        };
        let nfm = if turn == 1 {
            state.fm + 1
        } else {
            state.fm
        };
        self.ply = self.ply + 1;
        self.history[self.ply] = State {
            turn: 1 - turn,
            castling: ncast,
            captured: ncap,
            ep: nep,
            hm: nhm,
            fm: nfm,
        };
        proof {
            assert(self@.pieces == spec_pieces_after(m0, mv));
            assert(self@.history =~= m0.history.update(m0.ply + 1, spec_state_after(m0, mv)));
        }
        self.update_checks();
        proof {
            let core = PosModel {
                ply: m0.ply + 1,
                pieces: spec_pieces_after(m0, mv),
                history: m0.history.update(m0.ply + 1, spec_state_after(m0, mv)),
                hash: zob_all(spec_pieces_after(m0, mv)),
                pin_hv: m0.pin_hv,
                pin_d12: m0.pin_d12,
                danger: m0.danger,
                checkmask: m0.checkmask,
            };
            crate::analysis::lemma_analysis_ignores_masks(core, self@);
            assert(self@ =~~= spec_make(m0, mv));
        }
    }
}

/// Applies the four captured-rook-corner checks to the castling bits.
fn strip_corners(cast: u8, t: usize) -> (r: u8)
    ensures
        r == strip_to_corner(cast, t),
{
    let c0 = if cast & 0b0001u8 != 0 && t == 7 {
        cast & 0b11111110u8
    } else {
        cast
    };
    let c1 = if c0 & 0b0010u8 != 0 && t == 0 {
        c0 & 0b11111101u8
    } else {
        c0
    };
    let c2 = if c1 & 0b0100u8 != 0 && t == 63 {
        c1 & 0b11111011u8
    } else {
        c1
    };
    if c2 & 0b1000u8 != 0 && t == 56 {
        c2 & 0b11110111u8
    } else {
        c2
    }
}

/// After the king's castling step, the rook still stands on its corner and
/// the rook's target square is still free.
proof fn lemma_castle_step(
    pieces: Seq<Seq<u64>>,
    pieces1: Seq<Seq<u64>>,
    kf: usize,
    kt: usize,
    rf: usize,
    rt: usize,
    turn: usize,
)
    requires
        turn < 2,
        kf < 64,
        kt < 64,
        rf < 64,
        rt < 64,
        kf != kt,
        kf != rf,
        kt != rf,
        kf != rt,
        kt != rt,
        rf != rt,
        pieces.len() == 2,
        pieces[0].len() == 6,
        pieces[1].len() == 6,
        disjoint_pieces(pieces),
        spec_scan_p(pieces, kf) == Some((turn, 5usize)),
        spec_scan_p(pieces, rf) == Some((turn, 3usize)),
        spec_scan_p(pieces, kt) is None,
        spec_scan_p(pieces, rt) is None,
        pieces1 == spec_moved(pieces, turn, 5usize, kf, kt),
        disjoint_pieces(pieces1),
    ensures
        spec_scan_p(pieces1, rf) == Some((turn, 3usize)),
        spec_scan_p(pieces1, rt) is None,
{
    let kb = pieces[turn as int][5];
    let kb1 = pieces1[turn as int][5];
    assert(kb1 == (kb ^ ((1u64 << (kf as u64)) | (1u64 << (kt as u64)))));
    assert forall|j: u64| j < 64 && j != kf && j != kt implies bb_bit(kb1, j) == bb_bit(kb, j) by {
        let kfu = kf as u64;
        let ktu = kt as u64;
        assert(j < 64 && kfu < 64 && ktu < 64 && j != kfu && j != ktu ==> bb_bit(
            (kb ^ ((1u64 << kfu) | (1u64 << ktu))),
            j,
        ) == bb_bit(kb, j)) by (bit_vector);
    }
    lemma_scan_none_clear(pieces, rt);
    lemma_scan_unique(pieces1, turn, 3usize, rf);
    assert forall|a: int, b: int| 0 <= a < 2 && 0 <= b < 6 implies !bb_bit(
        #[trigger] pieces1[a][b],
        rt as u64,
    ) by {
        if a == turn && b == 5 {
        }
    }
}

/// Clearing one square leaves every bit of every board on another square
/// unchanged.
proof fn lemma_clear_keeps_other(pieces: Seq<Seq<u64>>, s: usize, other: usize)
    requires
        s < 64,
        other < 64,
        other != s,
        pieces.len() == 2,
        pieces[0].len() == 6,
        pieces[1].len() == 6,
    ensures
        forall|a: int, b: int|
            0 <= a < 2 && 0 <= b < 6 ==> bb_bit(#[trigger] spec_clear_sq(pieces, s)[a][b], other as u64)
                == bb_bit(pieces[a][b], other as u64),
        spec_scan_p(pieces, other) is Some ==> spec_scan_p(spec_clear_sq(pieces, s), other)
            == spec_scan_p(pieces, other) || !disjoint_pieces(pieces),
{
    let ss = s as u64;
    let ou = other as u64;
    assert forall|a: int, b: int| 0 <= a < 2 && 0 <= b < 6 implies bb_bit(
        #[trigger] spec_clear_sq(pieces, s)[a][b],
        ou,
    ) == bb_bit(pieces[a][b], ou) by {
        let x = pieces[a][b];
        assert(ss < 64 && ou < 64 && ss != ou ==> bb_bit((x & !(1u64 << ss)), ou) == bb_bit(x, ou))
            by (bit_vector);
    }
    if spec_scan_p(pieces, other) is Some && disjoint_pieces(pieces) {
        let cp = spec_scan_p(pieces, other)->Some_0;
        lemma_scan_unique(pieces, cp.0, cp.1, other);
        match spec_scan_p(pieces, s) {
            Some(sp) => {
                let bb = pieces[sp.0 as int][sp.1 as int];
                assert(ss < 64 && bb_bit(bb, ss) ==> (bb & !(1u64 << ss)) == (bb ^ (1u64 << ss)))
                    by (bit_vector);
                crate::position::lemma_clear_keeps_disjoint(pieces, sp.0, sp.1, s);
            },
            None => {},
        }
        lemma_scan_unique(spec_clear_sq(pieces, s), cp.0, cp.1, other);
    }
}

/// Adding one square to one board leaves the bits of every board on any
/// other square unchanged.
proof fn lemma_put_keeps_other(pieces: Seq<Seq<u64>>, c: usize, p: usize, s: usize, other: usize)
    requires
        c < 2,
        p < 6,
        s < 64,
        other < 64,
        other != s,
        pieces.len() == 2,
        pieces[0].len() == 6,
        pieces[1].len() == 6,
    ensures
        forall|a: int, b: int|
            0 <= a < 2 && 0 <= b < 6 ==> bb_bit(
                #[trigger] spec_put_sq(pieces, c, p, s)[a][b],
                other as u64,
            ) == bb_bit(pieces[a][b], other as u64),
{
    let ss = s as u64;
    let ou = other as u64;
    assert forall|a: int, b: int| 0 <= a < 2 && 0 <= b < 6 implies bb_bit(
        #[trigger] spec_put_sq(pieces, c, p, s)[a][b],
        ou,
    ) == bb_bit(pieces[a][b], ou) by {
        let x = pieces[a][b];
        assert(ss < 64 && ou < 64 && ss != ou ==> bb_bit((x | (1u64 << ss)), ou) == bb_bit(x, ou))
            by (bit_vector);
    }
}

/// Moving between two squares leaves the bits of every board on a third
/// square unchanged.
proof fn lemma_moved_keeps_other_bits(pieces: Seq<Seq<u64>>, f: usize, t: usize, other: usize)
    requires
        f < 64,
        t < 64,
        other < 64,
        other != f,
        other != t,
        pieces.len() == 2,
        pieces[0].len() == 6,
        pieces[1].len() == 6,
    ensures
        forall|a: int, b: int|
            0 <= a < 2 && 0 <= b < 6 ==> bb_bit(#[trigger] model_moved(pieces, f, t)[a][b], other as u64)
                == bb_bit(pieces[a][b], other as u64),
{
    let fu = f as u64;
    let tu = t as u64;
    let ou = other as u64;
    assert forall|a: int, b: int| 0 <= a < 2 && 0 <= b < 6 implies bb_bit(
        #[trigger] model_moved(pieces, f, t)[a][b],
        ou,
    ) == bb_bit(pieces[a][b], ou) by {
        let x = pieces[a][b];
        assert(fu < 64 && tu < 64 && ou < 64 && ou != fu && ou != tu ==> bb_bit(
            (x ^ ((1u64 << fu) | (1u64 << tu))),
            ou,
        ) == bb_bit(x, ou)) by (bit_vector);
    }
}

/// What undoing a move needs from the position that the move produced.
pub open spec fn undo_ok(m: PosModel, mv: Move) -> bool {
    let f = mv.spec_from();
    let t = mv.spec_to();
    let fl = mv.spec_flag();
    let st = m.history[m.ply];
    let pt = (1 - st.turn) as usize;
    &&& m.ply >= 1
    &&& st.turn < 2
    &&& m.history[m.ply - 1].turn < 2
    &&& (match m.history[m.ply - 1].ep {
        Some(e) => e < 64,
        None => true,
    })
    &&& f != t
    &&& if fl == 0 || fl == 2 {
        spec_scan(m, t) matches Some(cp) && cp.0 == pt && spec_scan(m, f) is None
    } else if fl == 1 {
        &&& spec_scan(m, t) matches Some(cp) && cp.0 == pt
        &&& spec_scan(m, f) is None
        &&& st.captured matches Some(k) && k < 6 && k != 5
    } else if fl == 3 {
        &&& spec_scan(m, t) == Some((pt, 0usize))
        &&& spec_scan(m, f) is None
        &&& if pt == 0 {
            40 <= t < 48 && spec_scan(m, (t - 8) as usize) is None && f != t - 8
        } else {
            16 <= t < 24 && spec_scan(m, (t + 8) as usize) is None && f != t + 8
        }
    } else if fl == 4 {
        &&& f == spec_king_start(pt)
        &&& t == spec_short_king_target(pt)
        &&& spec_scan(m, t) == Some((pt, 5usize))
        &&& spec_scan(m, (spec_short_rook(pt) - 2) as usize) == Some((pt, 3usize))
        &&& spec_scan(m, f) is None
        &&& spec_scan(m, spec_short_rook(pt)) is None
    } else if fl == 5 {
        &&& f == spec_king_start(pt)
        &&& t == spec_long_king_target(pt)
        &&& spec_scan(m, t) == Some((pt, 5usize))
        &&& spec_scan(m, (spec_long_rook(pt) + 3) as usize) == Some((pt, 3usize))
        &&& spec_scan(m, f) is None
        &&& spec_scan(m, spec_long_rook(pt)) is None
    } else if 6 <= fl <= 9 {
        &&& spec_scan(m, t) matches Some(cp) && cp.0 == pt && cp.1 != 5
        &&& spec_scan(m, f) is None
    } else if 10 <= fl <= 13 {
        &&& spec_scan(m, t) matches Some(cp) && cp.0 == pt && cp.1 != 5
        &&& spec_scan(m, f) is None
        &&& st.captured matches Some(k) && k < 6 && k != 5
    } else {
        false
    }
}

/// The boards after a move is taken back, mirroring `undo_move`.
pub open spec fn spec_pieces_before(m: PosModel, mv: Move) -> Seq<Seq<u64>> {
    let f = mv.spec_from();
    let t = mv.spec_to();
    let fl = mv.spec_flag();
    let st = m.history[m.ply];
    let pt = (1 - st.turn) as usize;
    if fl == 0 || fl == 2 {
        model_moved(m.pieces, t, f)
    } else if fl == 1 {
        let k = st.captured->Some_0;
        let p1 = model_moved(m.pieces, t, f);
        spec_put_sq(spec_clear_sq(p1, t), st.turn, k, t)
    } else if fl == 3 {
        let behind = if pt == 0 {
            (t - 8) as usize
        } else {
            (t + 8) as usize
        };
        let p1 = model_moved(m.pieces, t, f);
        spec_put_sq(spec_clear_sq(p1, behind), st.turn, 0usize, behind)
    } else if fl == 4 {
        model_moved(
            model_moved(m.pieces, spec_short_king_target(pt), spec_king_start(pt)),
            (spec_short_rook(pt) - 2) as usize,
            spec_short_rook(pt),
        )
    } else if fl == 5 {
        model_moved(
            model_moved(m.pieces, spec_long_king_target(pt), spec_king_start(pt)),
            (spec_long_rook(pt) + 3) as usize,
            spec_long_rook(pt),
        )
    } else if 6 <= fl <= 9 {
        let p1 = spec_clear_sq(m.pieces, t);
        spec_put_sq(spec_clear_sq(p1, f), pt, 0usize, f)
    } else if 10 <= fl <= 13 {
        let k = st.captured->Some_0;
        let p1 = spec_clear_sq(m.pieces, t);
        let p2 = spec_put_sq(spec_clear_sq(p1, t), st.turn, k, t);
        spec_put_sq(spec_clear_sq(p2, f), pt, 0usize, f)
    } else {
        m.pieces
    }
}

/// The whole position after a move is taken back.
pub open spec fn spec_undo(m: PosModel, mv: Move) -> PosModel {
    let pieces2 = spec_pieces_before(m, mv);
    let core = PosModel {
        ply: m.ply - 1,
        pieces: pieces2,
        history: m.history.update(m.ply, state_empty()),
        hash: zob_all(pieces2),
        pin_hv: m.pin_hv,
        pin_d12: m.pin_d12,
        danger: m.danger,
        checkmask: m.checkmask,
    };
    with_masks(core)
}

/// Moving the occupant of `a` to the free square `b` vacates `a`, fills
/// `b` with the same piece, and keeps the boards disjoint.
pub proof fn lemma_move_props(pieces: Seq<Seq<u64>>, a: usize, b: usize)
    requires
        a < 64,
        b < 64,
        a != b,
        pieces.len() == 2,
        pieces[0].len() == 6,
        pieces[1].len() == 6,
        disjoint_pieces(pieces),
        spec_scan_p(pieces, a) is Some,
        spec_scan_p(pieces, b) is None,
    ensures
        spec_scan_p(model_moved(pieces, a, b), b) == spec_scan_p(pieces, a),
        spec_scan_p(model_moved(pieces, a, b), a) is None,
        disjoint_pieces(model_moved(pieces, a, b)),
{
    let cp = spec_scan_p(pieces, a)->Some_0;
    let au = a as u64;
    let bu = b as u64;
    let bb = pieces[cp.0 as int][cp.1 as int];
    let bb2 = (bb ^ ((1u64 << au) | (1u64 << bu)));
    let moved = model_moved(pieces, a, b);
    lemma_scan_unique(pieces, cp.0, cp.1, a);
    lemma_scan_none_clear(pieces, b);
    lemma_move_keeps_disjoint(pieces, cp.0, cp.1, a, b);
    assert(bb_bit(bb, au) && !bb_bit(bb, bu));
    assert(au < 64 && bu < 64 && au != bu && bb_bit(bb, au) && !bb_bit(bb, bu) ==> bb_bit(
        (bb ^ ((1u64 << au) | (1u64 << bu))),
        bu,
    ) && !bb_bit((bb ^ ((1u64 << au) | (1u64 << bu))), au)) by (bit_vector);
    lemma_scan_unique(moved, cp.0, cp.1, b);
    assert forall|x: int, y: int| 0 <= x < 2 && 0 <= y < 6 implies !bb_bit(
        #[trigger] moved[x][y],
        au,
    ) by {
        if x == cp.0 && y == cp.1 {
        } else {
            let ob = pieces[x][y];
            assert(ob & bb == 0);
            assert(bb_bit(bb, au) && ob & bb == 0 && au < 64 ==> !bb_bit(ob, au)) by (bit_vector);
        }
    }
}

impl Position {
    /// Undoes a move, restoring the position that produced it.
    #[verifier::rlimit(100)]
    #[verifier::spinoff_prover]
    pub fn undo_move(&mut self, mv: Move)
        requires
            wf_core(old(self)@),
            undo_ok(old(self)@, mv),
        ensures
            final(self)@ == spec_undo(old(self)@, mv),
            wf_core(final(self)@),
            masks_ok(final(self)@),
    {
        let ghost m0 = self@;
        let state = self.actual_state();
        let pt = 1 - state.turn;
        let f = mv.from();
        let t = mv.to();
        let flag = mv.flag();
        self.history[self.ply] = State::new();
        self.ply = self.ply - 1;
        let ghost m1 = self@;
        if flag == Move::QUIET || flag == Move::DOUBLE_PUSH {
            self.move_quiet(t, f);
        } else if flag == Move::CASTLE_00 {
            if pt == 0 {
                self.move_quiet(Square::G1, Square::E1);
                proof {
                    lemma_castle_step(m1.pieces, self@.pieces, 6, 4, 5, 7, pt);
                }
                self.move_quiet(Square::F1, Square::H1);
            } else {
                self.move_quiet(Square::G8, Square::E8);
                proof {
                    lemma_castle_step(m1.pieces, self@.pieces, 62, 60, 61, 63, pt);
                }
                self.move_quiet(Square::F8, Square::H8);
            }
        } else if flag == Move::CASTLE_000 {
            if pt == 0 {
                self.move_quiet(Square::C1, Square::E1);
                proof {
                    lemma_castle_step(m1.pieces, self@.pieces, 2, 4, 3, 0, pt);
                }
                self.move_quiet(Square::D1, Square::A1);
            } else {
                self.move_quiet(Square::C8, Square::E8);
                proof {
                    lemma_castle_step(m1.pieces, self@.pieces, 58, 60, 59, 56, pt);
                }
                self.move_quiet(Square::D8, Square::A8);
            }
        } else if flag == Move::EN_PASSANT {
            self.move_quiet(t, f);
            let behind = if pt == 0 {
                t - 8
            } else {
                t + 8
            };
            proof {
                lemma_moved_keeps_other_bits(m1.pieces, t, f, behind);
                lemma_scan_none_clear(m1.pieces, behind);
            }
            self.set_square(behind, Piece::PAWN, state.turn);
        } else if flag == Move::CAPTURE {
            self.move_quiet(t, f);
            proof {
                lemma_move_props(m1.pieces, t, f);
            }
            match state.captured {
                Some(k) => {
                    self.set_square(t, k, state.turn);
                },
                None => {
                    proof {
                        assert(false);
                    }
                },
            }
        } else {
            // promotions, capturing or not
            self.unset_square(t);
            if flag >= Move::PC_N {
                match state.captured {
                    Some(k) => {
                        proof {
                            crate::position::lemma_clear_scan_none(m1.pieces, t);
                        }
                        self.set_square(t, k, state.turn);
                    },
                    None => {
                        proof {
                            assert(false);
                        }
                    },
                }
            }
            proof {
                lemma_scan_none_clear(m1.pieces, f);
                lemma_clear_keeps_other(m1.pieces, t, f);
                if 10 <= mv.spec_flag() <= 13 {
                    let k = m0.history[m0.ply].captured->Some_0;
                    lemma_clear_scan_none(m1.pieces, t);
                    lemma_clear_keeps_other(spec_clear_sq(m1.pieces, t), t, f);
                    lemma_put_keeps_other(
                        spec_clear_sq(spec_clear_sq(m1.pieces, t), t),
                        m0.history[m0.ply].turn,
                        k,
                        mv.spec_to(),
                        mv.spec_from(),
                    );
                }
            }
            self.set_square(f, Piece::PAWN, pt);
        }
        self.update_checks();
        proof {
            let core = PosModel {
                ply: m0.ply - 1,
                pieces: spec_pieces_before(m0, mv),
                history: m0.history.update(m0.ply, state_empty()),
                hash: zob_all(spec_pieces_before(m0, mv)),
                pin_hv: m0.pin_hv,
                pin_d12: m0.pin_d12,
                danger: m0.danger,
                checkmask: m0.checkmask,
            };
            crate::analysis::lemma_analysis_ignores_masks(core, self@);
            assert(self@.history =~= m0.history.update(m0.ply, state_empty()));
            assert(self@ =~~= spec_undo(m0, mv));
        }
    }
}

/// Moving a piece out and back restores the boards.
proof fn lemma_move_cancel(pieces: Seq<Seq<u64>>, f: usize, t: usize)
    requires
        f < 64,
        t < 64,
        f != t,
        pieces.len() == 2,
        pieces[0].len() == 6,
        pieces[1].len() == 6,
        disjoint_pieces(pieces),
        spec_scan_p(pieces, f) is Some,
        spec_scan_p(pieces, t) is None,
    ensures
        model_moved(model_moved(pieces, f, t), t, f) == pieces,
{
    let cp = spec_scan_p(pieces, f)->Some_0;
    let p1 = model_moved(pieces, f, t);
    lemma_move_props(pieces, f, t);
    let fu = f as u64;
    let tu = t as u64;
    let bb = pieces[cp.0 as int][cp.1 as int];
    assert(((bb ^ ((1u64 << fu) | (1u64 << tu))) ^ ((1u64 << tu) | (1u64 << fu))) == bb)
        by (bit_vector);
    assert(model_moved(p1, t, f) =~~= pieces);
}

/// Clearing an occupied square and putting the same piece back restores
/// the boards.
proof fn lemma_clear_put_cancel(pieces: Seq<Seq<u64>>, s: usize)
    requires
        s < 64,
        pieces.len() == 2,
        pieces[0].len() == 6,
        pieces[1].len() == 6,
        spec_scan_p(pieces, s) is Some,
    ensures
        spec_put_sq(
            spec_clear_sq(pieces, s),
            spec_scan_p(pieces, s)->Some_0.0,
            spec_scan_p(pieces, s)->Some_0.1,
            s,
        ) == pieces,
{
    let cp = spec_scan_p(pieces, s)->Some_0;
    let ss = s as u64;
    let bb = pieces[cp.0 as int][cp.1 as int];
    assert(bb_bit(bb, ss));
    assert(ss < 64 && bb_bit(bb, ss) ==> ((bb & !(1u64 << ss)) | (1u64 << ss)) == bb)
        by (bit_vector);
    assert(spec_put_sq(spec_clear_sq(pieces, s), cp.0, cp.1, s) =~~= pieces);
}

/// Putting a piece on a free square and clearing it again restores the
/// boards.
proof fn lemma_put_clear_cancel(pieces: Seq<Seq<u64>>, c: usize, p: usize, s: usize)
    requires
        c < 2,
        p < 6,
        s < 64,
        pieces.len() == 2,
        pieces[0].len() == 6,
        pieces[1].len() == 6,
        disjoint_pieces(pieces),
        spec_scan_p(pieces, s) is None,
    ensures
        spec_clear_sq(spec_put_sq(pieces, c, p, s), s) == pieces,
{
    let ss = s as u64;
    let bb = pieces[c as int][p as int];
    lemma_scan_none_clear(pieces, s);
    lemma_put_keeps_disjoint(pieces, c, p, s);
    let p1 = spec_put_sq(pieces, c, p, s);
    assert(ss < 64 ==> bb_bit((bb | (1u64 << ss)), ss)) by (bit_vector);
    lemma_scan_unique(p1, c, p, s);
    assert(ss < 64 && !bb_bit(bb, ss) ==> ((bb | (1u64 << ss)) & !(1u64 << ss)) == bb)
        by (bit_vector);
    assert(spec_clear_sq(p1, s) =~~= pieces);
}

/// Once the boards are restored, the rest of the round trip follows: the
/// pushed frame is wiped, the ply returns, and the hash and the cached
/// masks are functions of what was restored.
proof fn lemma_mu_tail(m: PosModel, mv: Move)
    requires
        wf_core(m),
        crate::analysis::masks_ok(m),
        move_ok(m, mv),
        spec_pieces_before(spec_make(m, mv), mv) == m.pieces,
    ensures
        spec_undo(spec_make(m, mv), mv) == m,
{
    let m2 = spec_make(m, mv);
    let m3 = spec_undo(m2, mv);
    assert(m2.history.update(m2.ply, state_empty()) =~= m.history);
    let core = PosModel {
        ply: m2.ply - 1,
        pieces: spec_pieces_before(m2, mv),
        history: m2.history.update(m2.ply, state_empty()),
        hash: zob_all(spec_pieces_before(m2, mv)),
        pin_hv: m2.pin_hv,
        pin_d12: m2.pin_d12,
        danger: m2.danger,
        checkmask: m2.checkmask,
    };
    crate::analysis::lemma_analysis_ignores_masks(core, m);
    assert(m3 =~~= m);
}

/// Clearing a square keeps the boards disjoint.
proof fn lemma_clear_sq_disjoint(pieces: Seq<Seq<u64>>, s: usize)
    requires
        s < 64,
        pieces.len() == 2,
        pieces[0].len() == 6,
        pieces[1].len() == 6,
        disjoint_pieces(pieces),
    ensures
        disjoint_pieces(spec_clear_sq(pieces, s)),
{
    let ss = s as u64;
    match spec_scan_p(pieces, s) {
        Some(sp) => {
            let bb = pieces[sp.0 as int][sp.1 as int];
            assert(ss < 64 && bb_bit(bb, ss) ==> (bb & !(1u64 << ss)) == (bb ^ (1u64 << ss)))
                by (bit_vector);
            crate::position::lemma_clear_keeps_disjoint(pieces, sp.0, sp.1, s);
        },
        None => {},
    }
}

/// Taking back a quiet move or a double push restores the position.
proof fn lemma_mu_quiet(m: PosModel, mv: Move)
    requires
        wf_core(m),
        crate::analysis::masks_ok(m),
        move_ok(m, mv),
        mv.spec_flag() == 0 || mv.spec_flag() == 2,
    ensures
        undo_ok(spec_make(m, mv), mv),
        spec_undo(spec_make(m, mv), mv) == m,
{
    crate::types::lemma_move_fields(mv.0);
    let f = mv.spec_from();
    let t = mv.spec_to();
    let m2 = spec_make(m, mv);
    lemma_move_props(m.pieces, f, t);
    lemma_move_cancel(m.pieces, f, t);
    assert(undo_ok(m2, mv));
    lemma_mu_tail(m, mv);
}

/// Taking back an ordinary capture restores the position.
proof fn lemma_mu_capture(m: PosModel, mv: Move)
    requires
        wf_core(m),
        crate::analysis::masks_ok(m),
        move_ok(m, mv),
        mv.spec_flag() == 1,
    ensures
        undo_ok(spec_make(m, mv), mv),
        spec_undo(spec_make(m, mv), mv) == m,
{
    crate::types::lemma_move_fields(mv.0);
    let f = mv.spec_from();
    let t = mv.spec_to();
    let m2 = spec_make(m, mv);
    let cpt = spec_scan_p(m.pieces, t)->Some_0;
    let cpf = spec_scan_p(m.pieces, f)->Some_0;
    let p1 = spec_clear_sq(m.pieces, t);
    lemma_clear_sq_disjoint(m.pieces, t);
    lemma_clear_scan_none(m.pieces, t);
    lemma_clear_keeps_other(m.pieces, t, f);
    assert(spec_scan_p(p1, f) == Some(cpf));
    lemma_move_props(p1, f, t);
    lemma_move_cancel(p1, f, t);
    assert(undo_ok(m2, mv));
    lemma_clear_put_cancel(m.pieces, t);
    assert(spec_pieces_before(m2, mv) == m.pieces);
    lemma_mu_tail(m, mv);
}

/// Taking back an en-passant capture restores the position.
proof fn lemma_mu_ep(m: PosModel, mv: Move)
    requires
        wf_core(m),
        crate::analysis::masks_ok(m),
        move_ok(m, mv),
        mv.spec_flag() == 3,
    ensures
        undo_ok(spec_make(m, mv), mv),
        spec_undo(spec_make(m, mv), mv) == m,
{
    crate::types::lemma_move_fields(mv.0);
    let f = mv.spec_from();
    let t = mv.spec_to();
    let m2 = spec_make(m, mv);
    let turn = m.history[m.ply].turn;
    let behind = if turn == 0 {
        (t - 8) as usize
    } else {
        (t + 8) as usize
    };
    let p1 = model_moved(m.pieces, f, t);
    lemma_move_props(m.pieces, f, t);
    lemma_scan_none_clear(p1, f);
    lemma_moved_keeps_other_bits(m.pieces, f, t, behind);
    let them = (1 - turn) as usize;
    lemma_scan_unique(p1, them, 0usize, behind);
    let p2 = spec_clear_sq(p1, behind);
    lemma_clear_sq_disjoint(p1, behind);
    lemma_clear_scan_none(p1, behind);
    lemma_clear_keeps_other(p1, behind, t);
    lemma_clear_keeps_other(p1, behind, f);
    assert(spec_scan_p(p2, t) == Some((turn, 0usize)));
    assert(spec_scan_p(p2, f) is None) by {
        lemma_scan_none_clear(p1, f);
    }
    assert(undo_ok(m2, mv));
    // moving the pawn back over the cleared victim square
    let q1 = model_moved(p2, t, f);
    let fu = f as u64;
    let tu = t as u64;
    let kb = m.pieces[turn as int][0];
    assert(((kb ^ ((1u64 << fu) | (1u64 << tu))) ^ ((1u64 << tu) | (1u64 << fu))) == kb)
        by (bit_vector);
    let r1 = spec_clear_sq(m.pieces, behind);
    lemma_scan_unique(m.pieces, them, 0usize, behind);
    assert(q1 =~~= r1);
    lemma_clear_sq_disjoint(m.pieces, behind);
    lemma_clear_scan_none(m.pieces, behind);
    lemma_clear_put_cancel(m.pieces, behind);
    assert(spec_clear_sq(q1, behind) == q1);
    assert(spec_pieces_before(m2, mv) == m.pieces);
    lemma_mu_tail(m, mv);
}

/// Taking back a castle restores the position.
proof fn lemma_mu_castle(m: PosModel, mv: Move)
    requires
        wf_core(m),
        crate::analysis::masks_ok(m),
        move_ok(m, mv),
        mv.spec_flag() == 4 || mv.spec_flag() == 5,
    ensures
        undo_ok(spec_make(m, mv), mv),
        spec_undo(spec_make(m, mv), mv) == m,
{
    crate::types::lemma_move_fields(mv.0);
    let m2 = spec_make(m, mv);
    let turn = m.history[m.ply].turn;
    let kf = spec_king_start(turn);
    let kt = if mv.spec_flag() == 4 {
        spec_short_king_target(turn)
    } else {
        spec_long_king_target(turn)
    };
    let rf = if mv.spec_flag() == 4 {
        spec_short_rook(turn)
    } else {
        spec_long_rook(turn)
    };
    let rt = if mv.spec_flag() == 4 {
        (spec_short_rook(turn) - 2) as usize
    } else {
        (spec_long_rook(turn) + 3) as usize
    };
    let p1 = model_moved(m.pieces, kf, kt);
    lemma_move_props(m.pieces, kf, kt);
    lemma_moved_keeps_other_bits(m.pieces, kf, kt, rf);
    lemma_moved_keeps_other_bits(m.pieces, kf, kt, rt);
    lemma_scan_unique(p1, turn, 3usize, rf);
    lemma_scan_none_clear(m.pieces, rt);
    assert(spec_scan_p(p1, rt) is None);
    lemma_move_props(p1, rf, rt);
    lemma_moved_keeps_other_bits(p1, rf, rt, kt);
    lemma_moved_keeps_other_bits(p1, rf, rt, kf);
    lemma_scan_unique(m2.pieces, turn, 5usize, kt);
    assert(spec_scan_p(m2.pieces, kf) is None) by {
        lemma_scan_none_clear(p1, kf);
    }
    assert(undo_ok(m2, mv));
    // the king steps back first, leaving only the rook displaced
    let q1 = model_moved(m2.pieces, kt, kf);
    let kfu = kf as u64;
    let ktu = kt as u64;
    let kb = m.pieces[turn as int][5];
    assert(((kb ^ ((1u64 << kfu) | (1u64 << ktu))) ^ ((1u64 << ktu) | (1u64 << kfu))) == kb)
        by (bit_vector);
    let r1 = model_moved(m.pieces, rf, rt);
    lemma_scan_unique(m.pieces, turn, 3usize, rf);
    lemma_move_props(m.pieces, rf, rt);
    assert(q1 =~~= r1);
    lemma_move_cancel(m.pieces, rf, rt);
    assert(spec_pieces_before(m2, mv) == m.pieces);
    lemma_mu_tail(m, mv);
}

/// Taking back a promotion, capturing or not, restores the position.
proof fn lemma_mu_promo(m: PosModel, mv: Move)
    requires
        wf_core(m),
        crate::analysis::masks_ok(m),
        move_ok(m, mv),
        6 <= mv.spec_flag() <= 13,
    ensures
        undo_ok(spec_make(m, mv), mv),
        spec_undo(spec_make(m, mv), mv) == m,
{
    crate::types::lemma_move_fields(mv.0);
    let f = mv.spec_from();
    let t = mv.spec_to();
    let fl = mv.spec_flag();
    let m2 = spec_make(m, mv);
    let turn = m.history[m.ply].turn;
    let promo = spec_promo_piece(fl);
    let p1 = spec_clear_sq(m.pieces, f);
    lemma_clear_sq_disjoint(m.pieces, f);
    lemma_clear_scan_none(m.pieces, f);
    lemma_clear_keeps_other(m.pieces, f, t);
    let p2 = spec_clear_sq(p1, t);
    lemma_clear_sq_disjoint(p1, t);
    if fl <= 9 {
        lemma_scan_none_clear(m.pieces, t);
        lemma_scan_none_clear(p1, t);
        assert(p2 == p1);
    } else {
        let cpt = spec_scan_p(m.pieces, t)->Some_0;
        lemma_scan_unique(p1, cpt.0, cpt.1, t);
        lemma_clear_scan_none(p1, t);
        lemma_clear_keeps_other(p1, t, f);
    }
    lemma_scan_none_clear(p2, t);
    lemma_put_keeps_disjoint(p2, turn, promo, t);
    let p3 = spec_put_sq(p2, turn, promo, t);
    assert(m2.pieces == p3);
    let tu = t as u64;
    let pb = p2[turn as int][promo as int];
    assert(tu < 64 ==> bb_bit((pb | (1u64 << tu)), tu)) by (bit_vector);
    lemma_scan_unique(p3, turn, promo, t);
    lemma_put_keeps_other(p2, turn, promo, t, f);
    assert(spec_scan_p(p3, f) is None) by {
        if fl <= 9 {
            lemma_scan_none_clear(p1, f);
        } else {
            lemma_scan_none_clear(p2, f);
        }
    }
    assert(undo_ok(m2, mv));
    lemma_put_clear_cancel(p2, turn, promo, t);
    assert(spec_clear_sq(m2.pieces, t) == p2);
    if fl <= 9 {
        lemma_scan_none_clear(p2, f);
        lemma_clear_put_cancel(m.pieces, f);
        assert(spec_pieces_before(m2, mv) == m.pieces);
    } else {
        let them = (1 - turn) as usize;
        lemma_clear_scan_none(p1, t);
        lemma_clear_put_cancel(p1, t);
        assert(spec_put_sq(spec_clear_sq(p2, t), them, spec_scan_p(p1, t)->Some_0.1, t) == p1
            || spec_clear_sq(p2, t) != p2);
        assert(spec_clear_sq(p2, t) == p2) by {
            lemma_scan_none_clear(p2, t);
        }
        lemma_clear_put_cancel(m.pieces, f);
        assert(spec_pieces_before(m2, mv) == m.pieces);
    }
    lemma_mu_tail(m, mv);
}

/// Undoing a move that was just made restores the position bit for bit:
/// the boards, the whole history, the hash and the cached masks.
pub proof fn lemma_make_undo(m: PosModel, mv: Move)
    requires
        wf_core(m),
        crate::analysis::masks_ok(m),
        move_ok(m, mv),
    ensures
        undo_ok(spec_make(m, mv), mv),
        spec_undo(spec_make(m, mv), mv) == m,
{
    let fl = mv.spec_flag();
    if fl == 0 || fl == 2 {
        lemma_mu_quiet(m, mv);
    } else if fl == 1 {
        lemma_mu_capture(m, mv);
    } else if fl == 3 {
        lemma_mu_ep(m, mv);
    } else if fl == 4 || fl == 5 {
        lemma_mu_castle(m, mv);
    } else {
        lemma_mu_promo(m, mv);
    }
}

impl Position {
    /// True when the board holds exactly the piece `(c, p)` on square `s`.
    fn scan_is(&self, s: usize, c: usize, p: usize) -> (r: bool)
        requires
            s < 64,
        ensures
            r == (spec_scan(self@, s) == Some((c, p))),
    {
        match self.piece_and_color_on(s) {
            Some((a, b)) => a == c && b == p,
            None => false,
        }
    }

    /// True when square `s` is empty.
    fn scan_none(&self, s: usize) -> (r: bool)
        requires
            s < 64,
        ensures
            r == (spec_scan(self@, s) is None),
    {
        match self.piece_and_color_on(s) {
            Some(_) => false,
            None => true,
        }
    }

    /// True when square `s` holds a piece of color `c` other than a king.
    fn scan_color_not_king(&self, s: usize, c: usize) -> (r: bool)
        requires
            s < 64,
        ensures
            r == (spec_scan(self@, s) matches Some(cp) && cp.0 == c && cp.1 != 5),
    {
        match self.piece_and_color_on(s) {
            Some((a, b)) => a == c && b != 5,
            None => false,
        }
    }

    /// True when square `s` holds a piece of color `c`.
    fn scan_color(&self, s: usize, c: usize) -> (r: bool)
        requires
            s < 64,
        ensures
            r == (spec_scan(self@, s) matches Some(cp) && cp.0 == c),
    {
        match self.piece_and_color_on(s) {
            Some((a, b)) => a == c,
            None => false,
        }
    }

    /// Decides at run time whether a move fits the position, exactly as
    /// `make_move` requires.
    pub fn move_applies(&self, mv: Move) -> (r: bool)
        requires
            dims_ok(self@),
            history_ok(self@),
        ensures
            r == move_ok(self@, mv),
    {
        let f = mv.from();
        let t = mv.to();
        let fl = mv.flag();
        if self.ply >= 215 || fl >= 14 {
            return false;
        }
        let st = self.actual_state();
        let turn = st.turn;
        if turn >= 2 || f == t || st.hm == usize::MAX || st.fm == usize::MAX {
            return false;
        }
        let them = 1 - turn;
        if fl == 0 {
            self.scan_color(f, turn) && self.scan_none(t)
        } else if fl == 1 {
            self.scan_color(f, turn) && self.scan_color_not_king(t, them)
        } else if fl == 2 {
            self.scan_is(f, turn, 0) && self.scan_none(t) && (if turn == 0 {
                8 <= f && f < 16 && t == f + 16
            } else {
                48 <= f && f < 56 && t + 16 == f
            })
        } else if fl == 3 {
            let ep_matches = match st.ep {
                Some(e) => e == t,
                None => false,
            };
            ep_matches && self.scan_is(f, turn, 0) && self.scan_none(t) && (if turn == 0 {
                40 <= t && t < 48 && self.scan_is(t - 8, them, 0) && f != t - 8
            } else {
                16 <= t && t < 24 && self.scan_is(t + 8, them, 0) && f != t + 8
            })
        } else if fl == 4 {
            let ks = State::king_start(turn);
            let rk = State::short_rook(turn);
            f == ks && t == State::short_king_target(turn) && self.scan_is(ks, turn, 5)
                && self.scan_is(rk, turn, 3) && self.scan_none(t) && self.scan_none(rk - 2)
        } else if fl == 5 {
            let ks = State::king_start(turn);
            let rk = State::long_rook(turn);
            f == ks && t == State::long_king_target(turn) && self.scan_is(ks, turn, 5)
                && self.scan_is(rk, turn, 3) && self.scan_none(t) && self.scan_none(rk + 1)
                && self.scan_none(rk + 3)
        } else if fl <= 9 {
            self.scan_is(f, turn, 0) && self.scan_none(t)
        } else {
            self.scan_is(f, turn, 0) && self.scan_color_not_king(t, them)
        }
    }
}

} // verus!
