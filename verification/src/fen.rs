//! FEN input and output: parsing builds a well-formed position or reports
//! a failure; serialization is pinned to a byte-exact specification.

use vstd::prelude::*;
use vstd::string::StringSliceAdditionalSpecFns;

use crate::analysis::wf;
use crate::bits::{pcount, popcnt64};
use crate::position::{
    dims_ok, history_ok, spec_clear_sq, spec_put_sq, spec_scan, state_empty, PosModel, Position,
    State,
};
use crate::text::ascii_to_string;
use crate::types::Piece;

verus! {

/// The FEN letter of a piece as a byte, upper case for White.
pub open spec fn spec_piece_byte(c: usize, p: usize) -> u8 {
    let lower: u8 = if p == 0 {
        112
    } else if p == 1 {
        110
    } else if p == 2 {
        98
    } else if p == 3 {
        114
    } else if p == 4 {
        113
    } else {
        107
    };
    if c == 0 {
        (lower - 32) as u8
    } else {
        lower
    }
}

/// The FEN letter of a piece as a byte, upper case for White.
fn piece_byte(c: usize, p: usize) -> (r: u8)
    ensures
        r == spec_piece_byte(c, p),
{
    let lower: u8 = if p == 0 {
        112
    } else if p == 1 {
        110
    } else if p == 2 {
        98
    } else if p == 3 {
        114
    } else if p == 4 {
        113
    } else {
        107
    };
    if c == 0 {
        lower - 32
    } else {
        lower
    }
}

/// One rank of the placement field from file `f` on, with `em` empty
/// squares already pending.
pub open spec fn spec_fen_rank(m: PosModel, r: int, f: int, em: int) -> Seq<u8>
    decreases 8 - f,
{
    if f >= 8 {
        if em > 0 {
            seq![(48 + em) as u8]
        } else {
            Seq::empty()
        }
    } else {
        match spec_scan(m, (r * 8 + f) as usize) {
            Some(cp) => {
                let lead = if em > 0 {
                    seq![(48 + em) as u8]
                } else {
                    Seq::empty()
                };
                lead + seq![spec_piece_byte(cp.0, cp.1)] + spec_fen_rank(m, r, f + 1, 0)
            },
            None => spec_fen_rank(m, r, f + 1, em + 1),
        }
    }
}

/// The placement field from rank `r` down to rank 1.
pub open spec fn spec_fen_ranks(m: PosModel, r: int) -> Seq<u8>
    decreases r + 1,
{
    if r < 0 {
        Seq::empty()
    } else if r == 0 {
        spec_fen_rank(m, 0, 0, 0)
    } else {
        spec_fen_rank(m, r, 0, 0) + seq![47u8] + spec_fen_ranks(m, r - 1)
    }
}

/// The decimal digits of a number.
pub open spec fn spec_dec(n: int) -> Seq<u8>
    decreases n,
{
    if n < 10 {
        seq![(48 + if n >= 0 {
            n
        } else {
            0
        }) as u8]
    } else {
        spec_dec(n / 10) + seq![(48 + n % 10) as u8]
    }
}

/// The castling field: the rights still held, or a dash.
pub open spec fn spec_fen_castling(cast: u8) -> Seq<u8> {
    if cast == 0 {
        seq![45u8]
    } else {
        (if cast & 0b0001u8 != 0 {
            seq![75u8]
        } else {
            Seq::<u8>::empty()
        }) + (if cast & 0b0010u8 != 0 {
            seq![81u8]
        } else {
            Seq::<u8>::empty()
        }) + (if cast & 0b0100u8 != 0 {
            seq![107u8]
        } else {
            Seq::<u8>::empty()
        }) + (if cast & 0b1000u8 != 0 {
            seq![113u8]
        } else {
            Seq::<u8>::empty()
        })
    }
}

/// The en-passant field: the target square or a dash.
pub open spec fn spec_fen_ep(ep: Option<usize>) -> Seq<u8> {
    match ep {
        Some(e) => seq![(97 + (e % 8)) as u8, (49 + (e / 8)) as u8],
        None => seq![45u8],
    }
}

/// The whole FEN line of a position, as bytes.
pub open spec fn spec_fen(m: PosModel) -> Seq<u8> {
    let st = m.history[m.ply];
    spec_fen_ranks(m, 7) + seq![32u8] + (if st.turn == 0 {
        seq![119u8]
    } else {
        seq![98u8]
    }) + seq![32u8] + spec_fen_castling(st.castling) + seq![32u8] + spec_fen_ep(st.ep)
        + seq![32u8] + spec_dec(st.hm as int) + seq![32u8] + spec_dec(st.fm as int)
}

/// One rank of the placement field, built to match its specification.
fn fen_rank(pos: &Position, r: usize, f: usize, em: usize) -> (v: Vec<u8>)
    requires
        r < 8,
        f <= 8,
        em <= f,
    ensures
        v@ == spec_fen_rank(pos@, r as int, f as int, em as int),
        forall|i: int| 0 <= i < v@.len() ==> v@[i] < 128,
    decreases 8 - f,
{
    if f >= 8 {
        let mut v: Vec<u8> = Vec::new();
        if em > 0 {
            v.push(48 + (em as u8));
        }
        proof {
            if em > 0 {
                assert(v@ =~= seq![(48 + em) as u8]);
            } else {
                assert(v@ =~= Seq::<u8>::empty());
            }
        }
        v
    } else {
        match pos.piece_and_color_on(r * 8 + f) {
            Some((c, p)) => {
                let mut v: Vec<u8> = Vec::new();
                if em > 0 {
                    v.push(48 + (em as u8));
                }
                v.push(piece_byte(c, p));
                let mut rest = fen_rank(pos, r, f + 1, 0);
                v.append(&mut rest);
                proof {
                    let lead: Seq<u8> = if em > 0 {
                        seq![(48 + em) as u8]
                    } else {
                        Seq::<u8>::empty()
                    };
                    assert(v@ =~= lead + seq![
                        spec_piece_byte(c, p),
                    ] + spec_fen_rank(pos@, r as int, f as int + 1, 0));
                }
                v
            },
            None => fen_rank(pos, r, f + 1, em + 1),
        }
    }
}

/// The placement field from rank `r` down, built to match its
/// specification.
fn fen_ranks(pos: &Position, r: usize) -> (v: Vec<u8>)
    requires
        r < 8,
    ensures
        v@ == spec_fen_ranks(pos@, r as int),
        forall|i: int| 0 <= i < v@.len() ==> v@[i] < 128,
    decreases r,
{
    let mut v = fen_rank(pos, r, 0, 0);
    if r == 0 {
        v
    } else {
        v.push(47);
        let mut rest = fen_ranks(pos, r - 1);
        v.append(&mut rest);
        proof {
            assert(v@ =~= spec_fen_rank(pos@, r as int, 0, 0) + seq![47u8] + spec_fen_ranks(
                pos@,
                r as int - 1,
            ));
        }
        v
    }
}

/// The decimal digits of a number, built to match their specification.
fn dec_bytes(n: usize) -> (v: Vec<u8>)
    ensures
        v@ == spec_dec(n as int),
        forall|i: int| 0 <= i < v@.len() ==> v@[i] < 128,
    decreases n,
{
    if n < 10 {
        let mut v: Vec<u8> = Vec::new();
        v.push(48 + (n as u8));
        proof {
            assert(v@ =~= seq![(48 + n) as u8]);
        }
        v
    } else {
        let mut v = dec_bytes(n / 10);
        v.push(48 + ((n % 10) as u8));
        proof {
            assert(v@ =~= spec_dec(n as int / 10) + seq![(48 + n as int % 10) as u8]);
        }
        v
    }
}

impl Position {
    /// Gets the FEN notation of the current position.
    #[verifier::rlimit(100)]
    #[verifier::spinoff_prover]
    pub fn fen(&self) -> (r: String)
        requires
            dims_ok(self@),
            history_ok(self@),
        ensures
            r@ == spec_fen(self@).map(|i: int, b: u8| b as char),
    {
        let state = self.actual_state();
        let ghost st = self@.history[self@.ply];
        let mut v = fen_ranks(self, 7);
        v.push(32);
        proof {
            assert(v@ =~= spec_fen_ranks(self@, 7) + seq![32u8]);
        }
        let ghost g1 = spec_fen_ranks(self@, 7) + seq![32u8];
        v.push(
            if state.turn == 0 {
                119
            } else {
                98
            },
        );
        v.push(32);
        let ghost g2 = g1 + (if st.turn == 0 {
            seq![119u8]
        } else {
            seq![98u8]
        }) + seq![32u8];
        proof {
            assert(v@ =~= g2);
        }
        if state.castling == 0 {
            v.push(45);
        } else {
            if state.can_castle(State::WHITE_00) {
                v.push(75);
            }
            if state.can_castle(State::WHITE_000) {
                v.push(81);
            }
            if state.can_castle(State::BLACK_00) {
                v.push(107);
            }
            if state.can_castle(State::BLACK_000) {
                v.push(113);
            }
        }
        v.push(32);
        let ghost g3 = g2 + spec_fen_castling(st.castling) + seq![32u8];
        proof {
            assert(v@ =~= g3);
        }
        match state.ep {
            Some(e) => {
                v.push(97 + ((e % 8) as u8));
                v.push(49 + ((e / 8) as u8));
            },
            None => {
                v.push(45);
            },
        }
        v.push(32);
        let ghost g4 = g3 + spec_fen_ep(st.ep) + seq![32u8];
        proof {
            assert(v@ =~= g4);
        }
        let mut hm = dec_bytes(state.hm);
        v.append(&mut hm);
        v.push(32);
        let ghost g5 = g4 + spec_dec(st.hm as int) + seq![32u8];
        proof {
            assert(v@ =~= g5);
        }
        let mut fm = dec_bytes(state.fm);
        v.append(&mut fm);
        proof {
            assert(v@ =~= g5 + spec_dec(st.fm as int));
            assert(v@ =~= spec_fen(self@));
        }
        let r = ascii_to_string(v);
        proof {
            assert(r@ =~= spec_fen(self@).map(|i: int, b: u8| b as char));
        }
        r
    }

    /// Parses a position out of a six-field FEN line: exactly the inputs
    /// that `spec_parse_fen` accepts succeed, and the parsed boards and
    /// state frame are exactly what it reads out of the line. A malformed
    /// line, an unknown letter or a board without exactly one king per
    /// side is rejected.
    #[verifier::rlimit(100)]
    #[verifier::spinoff_prover]
    pub fn from_fen(s: &str) -> (r: Result<Position, String>)
        ensures
            r is Ok <==> spec_parse_fen(s.spec_bytes()) is Some,
            r matches Ok(p) ==> wf(p@) && p@.ply == 0 && (spec_parse_fen(s.spec_bytes()) matches
                Some(ps) && p@.pieces == ps.0 && p@.history == old_histories().update(0, ps.1)),
    {
        let b = s.as_bytes();
        let n = b.len();
        let ghost bs = s.spec_bytes();
        let mut pos = Position::new();
        let mut i: usize = 0;
        // Placement: ranks from the eighth down, files from the a-file.
        let mut rank: usize = 7;
        let mut file: usize = 0;
        proof {
            assert(pos@.history =~= old_histories());
            assert(pos@.pieces =~~= spec_empty_pieces());
        }
        loop
            invariant_except_break
                spec_parse_placement(bs, 0, 7, 0, spec_empty_pieces()) == spec_parse_placement(
                    bs,
                    i as int,
                    rank as int,
                    file as int,
                    pos@.pieces,
                ),
            invariant
                dims_ok(pos@),
                crate::position::disjoint_ok(pos@),
                crate::position::hash_ok(pos@),
                pos@.ply == 0,
                pos@.history == old_histories(),
                rank < 8,
                file <= 8,
                i <= n,
                b@.len() == n,
                b@ == bs,
                bs == s.spec_bytes(),
            ensures
                dims_ok(pos@),
                crate::position::disjoint_ok(pos@),
                crate::position::hash_ok(pos@),
                pos@.ply == 0,
                pos@.history == old_histories(),
                i <= n,
                b@.len() == n,
                spec_parse_placement(bs, 0, 7, 0, spec_empty_pieces()) == Some(
                    (pos@.pieces, i as int),
                ),
            decreases n - i,
        {
            if i >= n {
                proof {
                    assert(spec_parse_fen(bs) is None);
                }
                return Result::Err(fen_error());
            }
            let ch = b[i];
            if ch == 32 {
                if rank != 0 || file != 8 {
                    proof {
                        assert(spec_parse_fen(bs) is None);
                    }
                    return Result::Err(fen_error());
                }
                i = i + 1;
                break ;
            } else if ch == 47 {
                if file != 8 || rank == 0 {
                    proof {
                        assert(spec_parse_fen(bs) is None);
                    }
                    return Result::Err(fen_error());
                }
                rank = rank - 1;
                file = 0;
                i = i + 1;
            } else if 49 <= ch && ch <= 56 {
                let d = (ch - 48) as usize;
                if file + d > 8 {
                    proof {
                        assert(spec_parse_fen(bs) is None);
                    }
                    return Result::Err(fen_error());
                }
                file = file + d;
                i = i + 1;
            } else {
                if file >= 8 {
                    proof {
                        assert(spec_parse_fen(bs) is None);
                    }
                    return Result::Err(fen_error());
                }
                let (color, piece) = match ch {
                    80 => (0, 0),
                    78 => (0, 1),
                    66 => (0, 2),
                    82 => (0, 3),
                    81 => (0, 4),
                    75 => (0, 5),
                    112 => (1, 0),
                    110 => (1, 1),
                    98 => (1, 2),
                    114 => (1, 3),
                    113 => (1, 4),
                    107 => (1, 5),
                    _ => {
                        proof {
                            assert(spec_letter(ch) is None);
                            assert(spec_parse_fen(bs) is None);
                        }
                        return Result::Err(fen_error());
                    },
                };
                proof {
                    assert(spec_letter(ch) == Some((color as usize, piece as usize)));
                }
                pos.set_square(rank * 8 + file, piece, color);
                file = file + 1;
                i = i + 1;
            }
        }
        let ghost pieces0 = pos@.pieces;
        let ghost pi1 = i as int;
        // Both kings must stand on the board, once each.
        if popcnt64(pos.bb_of(0, Piece::KING)) != 1 || popcnt64(pos.bb_of(1, Piece::KING)) != 1 {
            proof {
                assert(spec_parse_fen(bs) is None);
            }
            return Result::Err(fen_error());
        }
        proof {
            assert(pcount(pieces0[0][5]) == 1);
            assert(pcount(pieces0[1][5]) == 1);
        }
        // Side to move.
        if i >= n {
            proof {
                assert(spec_parse_turn(bs, pi1) is None);
                assert(spec_parse_fen(bs) is None);
            }
            return Result::Err(fen_error());
        }
        let turn: usize = if b[i] == 119 {
            0
        } else if b[i] == 98 {
            1
        } else {
            proof {
                assert(spec_parse_turn(bs, pi1) is None);
                assert(spec_parse_fen(bs) is None);
            }
            return Result::Err(fen_error());
        };
        i = i + 1;
        if i >= n || b[i] != 32 {
            proof {
                assert(spec_parse_turn(bs, pi1) is None);
                assert(spec_parse_fen(bs) is None);
            }
            return Result::Err(fen_error());
        }
        i = i + 1;
        let ghost ti1 = i as int;
        proof {
            assert(spec_parse_turn(bs, pi1) == Some((turn, ti1)));
        }
        // Castling rights.
        let mut castling: u8 = 0;
        if i < n && b[i] == 45 {
            i = i + 1;
        } else {
            let start = i;
            while i < n && b[i] != 32
                invariant
                    b@.len() == n,
                    b@ == bs,
                    bs == s.spec_bytes(),
                    start <= i <= n,
                    start as int == ti1,
                    start >= n || b@[start as int] != 45,
                    spec_parse_placement(bs, 0, 7, 0, spec_empty_pieces()) == Some(
                        (pieces0, pi1),
                    ),
                    pcount(pieces0[0][5]) == 1 && pcount(pieces0[1][5]) == 1,
                    spec_parse_turn(bs, pi1) == Some((turn, ti1)),
                    spec_parse_castling(bs, start as int, 0) == spec_parse_castling(
                        bs,
                        i as int,
                        castling,
                    ),
                decreases n - i,
            {
                if b[i] == 75 {
                    castling = castling | State::WHITE_00;
                } else if b[i] == 81 {
                    castling = castling | State::WHITE_000;
                } else if b[i] == 107 {
                    castling = castling | State::BLACK_00;
                } else if b[i] == 113 {
                    castling = castling | State::BLACK_000;
                } else {
                    proof {
                        assert(spec_parse_castling(bs, i as int, castling) is None);
                        assert(spec_parse_cast_field(bs, ti1) is None);
                        assert(spec_parse_fen(bs) is None);
                    }
                    return Result::Err(fen_error());
                }
                i = i + 1;
            }
            if i == start {
                proof {
                    assert(spec_parse_cast_field(bs, ti1) is None);
                    assert(spec_parse_fen(bs) is None);
                }
                return Result::Err(fen_error());
            }
        }
        if i >= n || b[i] != 32 {
            proof {
                assert(spec_parse_cast_field(bs, ti1) is None);
                assert(spec_parse_fen(bs) is None);
            }
            return Result::Err(fen_error());
        }
        i = i + 1;
        let ghost ci1 = i as int;
        proof {
            assert(spec_parse_cast_field(bs, ti1) == Some((castling, ci1)));
        }
        // En-passant target.
        let mut ep: Option<usize> = None;
        if i < n && b[i] == 45 {
            i = i + 1;
        } else {
            if i >= n {
                proof {
                    assert(spec_parse_ep_field(bs, ci1) is None);
                    assert(spec_parse_fen(bs) is None);
                }
                return Result::Err(fen_error());
            }
            if i + 1 >= n {
                proof {
                    assert(spec_parse_ep_field(bs, ci1) is None);
                    assert(spec_parse_fen(bs) is None);
                }
                return Result::Err(fen_error());
            }
            let fb = b[i];
            let rb = b[i + 1];
            if !(97 <= fb && fb <= 104 && 49 <= rb && rb <= 56) {
                proof {
                    assert(spec_parse_ep_field(bs, ci1) is None);
                    assert(spec_parse_fen(bs) is None);
                }
                return Result::Err(fen_error());
            }
            ep = Some(((rb - 49) as usize) * 8 + ((fb - 97) as usize));
            i = i + 2;
        }
        if i >= n || b[i] != 32 {
            proof {
                assert(spec_parse_ep_field(bs, ci1) is None);
                assert(spec_parse_fen(bs) is None);
            }
            return Result::Err(fen_error());
        }
        i = i + 1;
        let ghost ei1 = i as int;
        proof {
            assert(spec_parse_ep_field(bs, ci1) == Some((ep, ei1)));
        }
        // Halfmove clock.
        let (hm, ni) = match parse_number(b, i) {
            Some(x) => x,
            None => {
                proof {
                    assert(spec_parse_fen(bs) is None);
                }
                return Result::Err(fen_error());
            },
        };
        i = ni;
        if i >= n || b[i] != 32 {
            proof {
                assert(spec_parse_fen(bs) is None);
            }
            return Result::Err(fen_error());
        }
        i = i + 1;
        // Fullmove counter.
        let (fm, _) = match parse_number(b, i) {
            Some(x) => x,
            None => {
                proof {
                    assert(spec_parse_fen(bs) is None);
                }
                return Result::Err(fen_error());
            },
        };
        pos.history[0] = State { turn, castling, captured: None, ep, hm, fm };
        proof {
            assert(pos@.history =~= old_histories().update(0, State {
                turn,
                castling,
                captured: None,
                ep,
                hm,
                fm,
            }));
            assert(spec_parse_fen(bs) == Some(
                (pieces0, State { turn, castling, captured: None, ep, hm, fm }),
            ));
        }
        pos.update_checks();
        Result::Ok(pos)
    }
}

/// The history every fresh position starts from: all frames pristine.
pub open spec fn old_histories() -> Seq<State> {
    Seq::new(216, |i: int| state_empty())
}

/// The twelve empty boards a parse starts from.
pub open spec fn spec_empty_pieces() -> Seq<Seq<u64>> {
    Seq::new(2, |c: int| Seq::new(6, |p: int| 0u64))
}

/// The color and kind a FEN placement letter names, as a byte.
pub open spec fn spec_letter(ch: u8) -> Option<(usize, usize)> {
    if ch == 80 {
        Some((0usize, 0usize))
    } else if ch == 78 {
        Some((0usize, 1usize))
    } else if ch == 66 {
        Some((0usize, 2usize))
    } else if ch == 82 {
        Some((0usize, 3usize))
    } else if ch == 81 {
        Some((0usize, 4usize))
    } else if ch == 75 {
        Some((0usize, 5usize))
    } else if ch == 112 {
        Some((1usize, 0usize))
    } else if ch == 110 {
        Some((1usize, 1usize))
    } else if ch == 98 {
        Some((1usize, 2usize))
    } else if ch == 114 {
        Some((1usize, 3usize))
    } else if ch == 113 {
        Some((1usize, 4usize))
    } else if ch == 107 {
        Some((1usize, 5usize))
    } else {
        None
    }
}

/// Reads the placement field from byte `i` on: ranks from the eighth down
/// separated by slashes, digits skipping files, letters placing pieces.
/// Yields the boards and the index just past the closing space, or
/// nothing when the field is malformed.
pub open spec fn spec_parse_placement(
    b: Seq<u8>,
    i: int,
    rank: int,
    file: int,
    pieces: Seq<Seq<u64>>,
) -> Option<(Seq<Seq<u64>>, int)>
    decreases b.len() - i,
{
    if i < 0 || i >= b.len() {
        None
    } else {
        let ch = b[i];
        if ch == 32 {
            if rank != 0 || file != 8 {
                None
            } else {
                Some((pieces, i + 1))
            }
        } else if ch == 47 {
            if file != 8 || rank == 0 {
                None
            } else {
                spec_parse_placement(b, i + 1, rank - 1, 0, pieces)
            }
        } else if 49 <= ch <= 56 {
            if file + (ch - 48) > 8 {
                None
            } else {
                spec_parse_placement(b, i + 1, rank, file + (ch - 48), pieces)
            }
        } else {
            if file >= 8 {
                None
            } else {
                match spec_letter(ch) {
                    Some(cp) => spec_parse_placement(
                        b,
                        i + 1,
                        rank,
                        file + 1,
                        spec_put_sq(
                            spec_clear_sq(pieces, (rank * 8 + file) as usize),
                            cp.0,
                            cp.1,
                            (rank * 8 + file) as usize,
                        ),
                    ),
                    None => None,
                }
            }
        }
    }
}

/// Reads the side-to-move field and its trailing space.
pub open spec fn spec_parse_turn(b: Seq<u8>, i: int) -> Option<(usize, int)> {
    if i < 0 || i >= b.len() {
        None
    } else {
        let turn: usize = if b[i] == 119 {
            0
        } else if b[i] == 98 {
            1
        } else {
            2
        };
        if turn == 2 {
            None
        } else if i + 1 >= b.len() || b[i + 1] != 32 {
            None
        } else {
            Some((turn, i + 2))
        }
    }
}

/// Folds castling letters into the rights until a space or the end.
pub open spec fn spec_parse_castling(b: Seq<u8>, i: int, castling: u8) -> Option<(u8, int)>
    decreases b.len() - i,
{
    if i < 0 || i >= b.len() || b[i] == 32 {
        Some((castling, i))
    } else if b[i] == 75 {
        spec_parse_castling(b, i + 1, castling | 0b0001u8)
    } else if b[i] == 81 {
        spec_parse_castling(b, i + 1, castling | 0b0010u8)
    } else if b[i] == 107 {
        spec_parse_castling(b, i + 1, castling | 0b0100u8)
    } else if b[i] == 113 {
        spec_parse_castling(b, i + 1, castling | 0b1000u8)
    } else {
        None
    }
}

/// Reads the castling field, a dash or at least one right, and its
/// trailing space.
pub open spec fn spec_parse_cast_field(b: Seq<u8>, i: int) -> Option<(u8, int)> {
    let r0: Option<(u8, int)> = if 0 <= i < b.len() && b[i] == 45 {
        Some((0u8, i + 1))
    } else {
        match spec_parse_castling(b, i, 0) {
            Some(ci) => if ci.1 == i {
                None
            } else {
                Some(ci)
            },
            None => None,
        }
    };
    match r0 {
        Some(ci) => if ci.1 >= b.len() || b[ci.1] != 32 {
            None
        } else {
            Some((ci.0, ci.1 + 1))
        },
        None => None,
    }
}

/// Reads the en-passant field, a dash or a square name, and its trailing
/// space.
pub open spec fn spec_parse_ep_field(b: Seq<u8>, i: int) -> Option<(Option<usize>, int)> {
    let r0: Option<(Option<usize>, int)> = if 0 <= i < b.len() && b[i] == 45 {
        Some((None, i + 1))
    } else if i < 0 || i >= b.len() || i + 1 >= b.len() {
        None
    } else if !(97 <= b[i] <= 104 && 49 <= b[i + 1] <= 56) {
        None
    } else {
        Some((Some((((b[i + 1] - 49) * 8 + (b[i] - 97)) as usize)), i + 2))
    };
    match r0 {
        Some(ei) => if ei.1 >= b.len() || b[ei.1] != 32 {
            None
        } else {
            Some((ei.0, ei.1 + 1))
        },
        None => None,
    }
}

/// Folds decimal digits into a value from byte `i` on; a value that would
/// leave the machine word is rejected.
pub open spec fn spec_parse_digits(b: Seq<u8>, i: int, val: int) -> Option<(int, int)>
    decreases b.len() - i,
{
    if i < 0 || i >= b.len() || !(48 <= b[i] <= 57) {
        Some((val, i))
    } else if val > (usize::MAX - 9) / 10 {
        None
    } else {
        spec_parse_digits(b, i + 1, val * 10 + (b[i] - 48))
    }
}

/// Reads a decimal number of at least one digit.
pub open spec fn spec_parse_number(b: Seq<u8>, start: int) -> Option<(int, int)> {
    match spec_parse_digits(b, start, 0) {
        Some(vi) => if vi.1 == start {
            None
        } else {
            Some(vi)
        },
        None => None,
    }
}

/// The whole parse: the placement field, exactly one king per side, the
/// side to move, the castling rights, the en-passant target and the two
/// clocks, each field separated by one space. Yields the boards and the
/// first state frame.
pub open spec fn spec_parse_fen(b: Seq<u8>) -> Option<(Seq<Seq<u64>>, State)> {
    match spec_parse_placement(b, 0, 7, 0, spec_empty_pieces()) {
        None => None,
        Some(pi) => if pcount(pi.0[0][5]) != 1 || pcount(pi.0[1][5]) != 1 {
            None
        } else {
            match spec_parse_turn(b, pi.1) {
                None => None,
                Some(ti) => match spec_parse_cast_field(b, ti.1) {
                    None => None,
                    Some(ci) => match spec_parse_ep_field(b, ci.1) {
                        None => None,
                        Some(ei) => match spec_parse_number(b, ei.1) {
                            None => None,
                            Some(hi) => if hi.1 >= b.len() || b[hi.1] != 32 {
                                None
                            } else {
                                match spec_parse_number(b, hi.1 + 1) {
                                    None => None,
                                    Some(fi) => Some(
                                        (
                                            pi.0,
                                            State {
                                                turn: ti.0,
                                                castling: ci.0,
                                                captured: None,
                                                ep: ei.0,
                                                hm: hi.0 as usize,
                                                fm: fi.0 as usize,
                                            },
                                        ),
                                    ),
                                }
                            },
                        },
                    },
                },
            }
        },
    }
}

/// The message every FEN failure reports.
fn fen_error() -> (r: String) {
    let v: Vec<u8> = vec![105u8, 110, 118, 97, 108, 105, 100, 32, 102, 101, 110];
    ascii_to_string(v)
}

/// Reads a decimal number, returning it with the index just past it; a
/// value that does not fit the machine word is rejected, exactly as
/// `spec_parse_number` reads it.
fn parse_number(b: &[u8], start: usize) -> (r: Option<(usize, usize)>)
    requires
        start <= b@.len(),
    ensures
        r is Some <==> spec_parse_number(b@, start as int) is Some,
        r matches Some(x) ==> start <= x.1 <= b@.len() && spec_parse_number(b@, start as int)
            == Some((x.0 as int, x.1 as int)),
{
    let n = b.len();
    let mut i = start;
    let mut val: usize = 0;
    while i < n && b[i] >= 48 && b[i] <= 57
        invariant
            b@.len() == n,
            start <= i <= n,
            spec_parse_digits(b@, start as int, 0) == spec_parse_digits(b@, i as int, val as int),
        decreases n - i,
    {
        if val > (usize::MAX - 9) / 10 {
            proof {
                assert(spec_parse_digits(b@, i as int, val as int) is None);
            }
            return None;
        }
        let d = (b[i] - 48) as usize;
        proof {
            assert(val * 10 + d <= ((usize::MAX - 9) / 10) * 10 + 9) by (nonlinear_arith)
                requires
                    val <= (usize::MAX - 9) / 10,
                    d <= 9,
            ;
        }
        val = val * 10 + d;
        i = i + 1;
    }
    proof {
        assert(spec_parse_digits(b@, i as int, val as int) == Some((val as int, i as int)));
    }
    if i == start {
        None
    } else {
        Some((val, i))
    }
}

impl core::str::FromStr for Position {
    type Err = String;

    fn from_str(s: &str) -> Result<Position, String> {
        Position::from_fen(s)
    }
}

impl Default for Position {
    /// The standard starting position: the full initial army, White to
    /// move, every castling right held, no en-passant target and fresh
    /// clocks, well formed with its caches set.
    #[verifier::rlimit(100)]
    #[verifier::spinoff_prover]
    fn default() -> (r: Position)
        ensures
            wf(r@),
            r@.ply == 0,
            r@.pieces == spec_start_pieces(),
            r@.history == old_histories().update(0, spec_start_state()),
    {
        let mut pos = Position::new();
        pos.pieces_bb[0][0] = 0xff00;
        pos.pieces_bb[0][1] = 0x42;
        pos.pieces_bb[0][2] = 0x24;
        pos.pieces_bb[0][3] = 0x81;
        pos.pieces_bb[0][4] = 0x8;
        pos.pieces_bb[0][5] = 0x10;
        pos.pieces_bb[1][0] = 0xff000000000000;
        pos.pieces_bb[1][1] = 0x4200000000000000;
        pos.pieces_bb[1][2] = 0x2400000000000000;
        pos.pieces_bb[1][3] = 0x8100000000000000;
        pos.pieces_bb[1][4] = 0x800000000000000;
        pos.pieces_bb[1][5] = 0x1000000000000000;
        pos.history[0] = State { turn: 0, castling: 0b1111, captured: None, ep: None, hm: 0, fm: 1 };
        let h = pos.recompute_hash();
        pos.hash = h;
        proof {
            assert(pos@.pieces =~~= spec_start_pieces());
            assert(pos@.history =~= old_histories().update(0, spec_start_state()));
            assert((0xff00u64 & 0x42u64) == 0 && (0xff00u64 & 0x24u64) == 0 && (0xff00u64 & 0x81u64) == 0 && (0xff00u64 & 0x8u64) == 0 && (0xff00u64 & 0x10u64) == 0 && (0xff00u64 & 0xff000000000000u64) == 0 && (0xff00u64 & 0x4200000000000000u64) == 0 && (0xff00u64 & 0x2400000000000000u64) == 0 && (0xff00u64 & 0x8100000000000000u64) == 0 && (0xff00u64 & 0x800000000000000u64) == 0 && (0xff00u64 & 0x1000000000000000u64) == 0 && (0x42u64 & 0x24u64) == 0 && (0x42u64 & 0x81u64) == 0 && (0x42u64 & 0x8u64) == 0 && (0x42u64 & 0x10u64) == 0 && (0x42u64 & 0xff000000000000u64) == 0 && (0x42u64 & 0x4200000000000000u64) == 0 && (0x42u64 & 0x2400000000000000u64) == 0 && (0x42u64 & 0x8100000000000000u64) == 0 && (0x42u64 & 0x800000000000000u64) == 0 && (0x42u64 & 0x1000000000000000u64) == 0 && (0x24u64 & 0x81u64) == 0 && (0x24u64 & 0x8u64) == 0 && (0x24u64 & 0x10u64) == 0 && (0x24u64 & 0xff000000000000u64) == 0 && (0x24u64 & 0x4200000000000000u64) == 0 && (0x24u64 & 0x2400000000000000u64) == 0 && (0x24u64 & 0x8100000000000000u64) == 0 && (0x24u64 & 0x800000000000000u64) == 0 && (0x24u64 & 0x1000000000000000u64) == 0 && (0x81u64 & 0x8u64) == 0 && (0x81u64 & 0x10u64) == 0 && (0x81u64 & 0xff000000000000u64) == 0 && (0x81u64 & 0x4200000000000000u64) == 0 && (0x81u64 & 0x2400000000000000u64) == 0 && (0x81u64 & 0x8100000000000000u64) == 0 && (0x81u64 & 0x800000000000000u64) == 0 && (0x81u64 & 0x1000000000000000u64) == 0 && (0x8u64 & 0x10u64) == 0 && (0x8u64 & 0xff000000000000u64) == 0 && (0x8u64 & 0x4200000000000000u64) == 0 && (0x8u64 & 0x2400000000000000u64) == 0 && (0x8u64 & 0x8100000000000000u64) == 0 && (0x8u64 & 0x800000000000000u64) == 0 && (0x8u64 & 0x1000000000000000u64) == 0 && (0x10u64 & 0xff000000000000u64) == 0 && (0x10u64 & 0x4200000000000000u64) == 0 && (0x10u64 & 0x2400000000000000u64) == 0 && (0x10u64 & 0x8100000000000000u64) == 0 && (0x10u64 & 0x800000000000000u64) == 0 && (0x10u64 & 0x1000000000000000u64) == 0 && (0xff000000000000u64 & 0x4200000000000000u64) == 0 && (0xff000000000000u64 & 0x2400000000000000u64) == 0 && (0xff000000000000u64 & 0x8100000000000000u64) == 0 && (0xff000000000000u64 & 0x800000000000000u64) == 0 && (0xff000000000000u64 & 0x1000000000000000u64) == 0 && (0x4200000000000000u64 & 0x2400000000000000u64) == 0 && (0x4200000000000000u64 & 0x8100000000000000u64) == 0 && (0x4200000000000000u64 & 0x800000000000000u64) == 0 && (0x4200000000000000u64 & 0x1000000000000000u64) == 0 && (0x2400000000000000u64 & 0x8100000000000000u64) == 0 && (0x2400000000000000u64 & 0x800000000000000u64) == 0 && (0x2400000000000000u64 & 0x1000000000000000u64) == 0 && (0x8100000000000000u64 & 0x800000000000000u64) == 0 && (0x8100000000000000u64 & 0x1000000000000000u64) == 0 && (0x800000000000000u64 & 0x1000000000000000u64) == 0 && (forall|x: u64, y: u64| #[trigger] (x & y) == (y & x)) && 0x10u64 == (0u64 ^ (1u64 << 4)) && 0x1000000000000000u64 == (0u64 ^ (1u64 << 60))) by (bit_vector);
            crate::bits::lemma_mask_edit();
            crate::position::lemma_pcount_flip(0u64, 4);
            crate::position::lemma_pcount_flip(0u64, 60);
            assert(pcount(0x10u64) == 1);
            assert(pcount(0x1000000000000000u64) == 1);
            assert(crate::position::kings_ok(pos@));
            assert forall|c: int, p: int, c2: int, p2: int|
                0 <= c < 2 && 0 <= p < 6 && 0 <= c2 < 2 && 0 <= p2 < 6 && !(c == c2 && p == p2)
                implies #[trigger] (pos@.pieces[c][p] & pos@.pieces[c2][p2]) == 0 by {
                assert(pos@.pieces == spec_start_pieces());
            }
            assert(crate::position::disjoint_ok(pos@));
            assert(crate::position::hash_ok(pos@));
            assert(crate::position::history_ok(pos@));
        }
        pos.update_checks();
        pos
    }
}

/// The boards of the standard starting position.
pub open spec fn spec_start_pieces() -> Seq<Seq<u64>> {
    seq![
        seq![0xff00u64, 0x42u64, 0x24u64, 0x81u64, 0x8u64, 0x10u64],
        seq![
            0xff000000000000u64,
            0x4200000000000000u64,
            0x2400000000000000u64,
            0x8100000000000000u64,
            0x800000000000000u64,
            0x1000000000000000u64,
        ],
    ]
}

/// The first state frame of the standard starting position.
pub open spec fn spec_start_state() -> State {
    State { turn: 0, castling: 0b1111u8, captured: None, ep: None, hm: 0, fm: 1 }
}

/// One row of the grid between the rank label and the right border: each
/// square's letter, or a dot when empty, each followed by a space.
pub open spec fn spec_board_cells(m: PosModel, r: int, f: int) -> Seq<u8>
    decreases 8 - f,
{
    if f >= 8 {
        Seq::empty()
    } else {
        (match spec_scan(m, (r * 8 + f) as usize) {
            Some(cp) => seq![spec_piece_byte(cp.0, cp.1)],
            None => seq![46u8],
        }) + seq![32u8] + spec_board_cells(m, r, f + 1)
    }
}

/// The grid rows from rank `r` down to rank 1, each with its rank label,
/// borders and newline.
pub open spec fn spec_board_rows(m: PosModel, r: int) -> Seq<u8>
    decreases r + 1,
{
    if r < 0 {
        Seq::empty()
    } else {
        seq![(49 + r) as u8, 32u8, 124u8, 32u8] + spec_board_cells(m, r, 0) + seq![124u8, 10u8]
            + spec_board_rows(m, r - 1)
    }
}

/// A run of `k` dashes.
pub open spec fn spec_dashes(k: int) -> Seq<u8>
    decreases k,
{
    if k <= 0 {
        Seq::empty()
    } else {
        spec_dashes(k - 1) + seq![45u8]
    }
}

/// The horizontal border of the grid.
pub open spec fn spec_board_border() -> Seq<u8> {
    seq![32u8, 32u8, 43u8] + spec_dashes(17) + seq![43u8, 10u8]
}

/// The whole grid: border, ranks 8 down to 1, border, file letters.
pub open spec fn spec_board_string(m: PosModel) -> Seq<u8> {
    spec_board_border() + spec_board_rows(m, 7) + spec_board_border() + seq![
        32u8,
        32u8,
        32u8,
        32u8,
        97u8,
        32u8,
        98u8,
        32u8,
        99u8,
        32u8,
        100u8,
        32u8,
        101u8,
        32u8,
        102u8,
        32u8,
        103u8,
        32u8,
        104u8,
    ]
}

/// Appends `k` dashes to the buffer.
fn push_dashes(v: &mut Vec<u8>, k: usize)
    ensures
        final(v)@ == old(v)@ + spec_dashes(k as int),
{
    let mut done: usize = 0;
    proof {
        assert(old(v)@ + spec_dashes(0) =~= old(v)@);
    }
    while done < k
        invariant
            done <= k,
            v@ == old(v)@ + spec_dashes(done as int),
        decreases k - done,
    {
        v.push(45);
        done = done + 1;
        proof {
            assert(v@ =~= old(v)@ + spec_dashes(done as int));
        }
    }
}

impl Position {
    /// The board as a text grid, rank 8 on top, White pieces upper case
    /// and empty squares drawn as dots, exactly as `spec_board_string`
    /// lays it out.
    #[verifier::rlimit(60)]
    #[verifier::spinoff_prover]
    pub fn board_string(&self) -> (r: String)
        ensures
            r@ == spec_board_string(self@).map(|i: int, b: u8| b as char),
    {
        let mut v: Vec<u8> = Vec::new();
        v.push(32);
        v.push(32);
        v.push(43);
        proof {
            assert(v@ =~= seq![32u8, 32u8, 43u8]);
        }
        push_dashes(&mut v, 17);
        v.push(43);
        v.push(10);
        proof {
            assert(v@ =~= spec_board_border());
        }
        let mut rank: usize = 8;
        while rank > 0
            invariant
                rank <= 8,
                v@ + spec_board_rows(self@, rank as int - 1) == spec_board_border()
                    + spec_board_rows(self@, 7),
            decreases rank,
        {
            rank = rank - 1;
            let ghost v0 = v@;
            v.push(49 + (rank as u8));
            v.push(32);
            v.push(124);
            v.push(32);
            proof {
                assert(v@ =~= v0 + seq![(49 + rank as int) as u8, 32u8, 124u8, 32u8]);
            }
            let ghost v1 = v@;
            let mut file: usize = 0;
            while file < 8
                invariant
                    rank < 8,
                    file <= 8,
                    v@ + spec_board_cells(self@, rank as int, file as int) == v1
                        + spec_board_cells(self@, rank as int, 0),
                decreases 8 - file,
            {
                let ghost v2 = v@;
                match self.piece_and_color_on(rank * 8 + file) {
                    Some((c, p)) => {
                        v.push(piece_byte(c, p));
                    },
                    None => {
                        v.push(46);
                    },
                }
                v.push(32);
                proof {
                    assert(v@ =~= v2 + (match spec_scan(self@, (rank * 8 + file) as usize) {
                        Some(cp) => seq![spec_piece_byte(cp.0, cp.1)],
                        None => seq![46u8],
                    }) + seq![32u8]);
                    assert(v@ + spec_board_cells(self@, rank as int, file as int + 1) =~= v1
                        + spec_board_cells(self@, rank as int, 0));
                }
                file = file + 1;
            }
            v.push(124);
            v.push(10);
            proof {
                assert(v@ =~= v1 + spec_board_cells(self@, rank as int, 0) + seq![124u8, 10u8]);
                assert(v@ + spec_board_rows(self@, rank as int - 1) =~= spec_board_border()
                    + spec_board_rows(self@, 7));
            }
        }
        proof {
            assert(v@ =~= spec_board_border() + spec_board_rows(self@, 7));
        }
        let ghost g1 = v@;
        v.push(32);
        v.push(32);
        v.push(43);
        push_dashes(&mut v, 17);
        v.push(43);
        v.push(10);
        proof {
            assert(v@ =~= g1 + spec_board_border());
        }
        let ghost g2 = v@;
        v.push(32);
        v.push(32);
        v.push(32);
        v.push(32);
        let mut fch: u8 = 97;
        while fch < 105
            invariant
                97 <= fch <= 105,
                v@ == g2 + seq![32u8, 32u8, 32u8, 32u8] + spec_files_prefix(fch as int),
            decreases 105 - fch,
        {
            let ghost v3 = v@;
            v.push(fch);
            if fch < 104 {
                v.push(32);
            }
            fch = fch + 1;
            proof {
                assert(v@ =~= g2 + seq![32u8, 32u8, 32u8, 32u8] + spec_files_prefix(fch as int));
            }
        }
        proof {
            reveal_with_fuel(spec_files_prefix, 10);
            assert(spec_files_prefix(105) =~= seq![
                97u8,
                32u8,
                98u8,
                32u8,
                99u8,
                32u8,
                100u8,
                32u8,
                101u8,
                32u8,
                102u8,
                32u8,
                103u8,
                32u8,
                104u8,
            ]);
            assert(v@ =~= spec_board_string(self@));
            lemma_board_bytes_ascii(v@, self@);
        }
        let r = ascii_to_string(v);
        proof {
            assert(r@ =~= spec_board_string(self@).map(|i: int, b: u8| b as char));
        }
        r
    }
}

/// The file letters a through the one before `fch`, space separated.
pub open spec fn spec_files_prefix(fch: int) -> Seq<u8>
    decreases fch,
{
    if fch <= 97 {
        Seq::empty()
    } else {
        spec_files_prefix(fch - 1) + seq![(fch - 1) as u8] + (if fch - 1 < 104 {
            seq![32u8]
        } else {
            Seq::empty()
        })
    }
}

/// Every byte below 128.
pub open spec fn ascii_seq(s: Seq<u8>) -> bool {
    forall|i: int| 0 <= i < s.len() ==> s[i] < 128
}

/// Gluing two ASCII byte runs keeps every byte ASCII.
proof fn lemma_ascii_cat(a: Seq<u8>, b: Seq<u8>)
    requires
        ascii_seq(a),
        ascii_seq(b),
    ensures
        ascii_seq(a + b),
{
    assert forall|i: int| 0 <= i < (a + b).len() implies (a + b)[i] < 128 by {
        if i < a.len() {
            assert((a + b)[i] == a[i]);
        } else {
            assert((a + b)[i] == b[i - a.len()]);
        }
    }
}

/// Every byte of the grid is plain ASCII.
proof fn lemma_board_bytes_ascii(s: Seq<u8>, m: PosModel)
    requires
        s == spec_board_string(m),
    ensures
        ascii_seq(s),
{
    lemma_rows_ascii(m, 7);
    lemma_dashes_ascii(17);
    lemma_ascii_cat(seq![32u8, 32u8, 43u8], spec_dashes(17));
    lemma_ascii_cat(seq![32u8, 32u8, 43u8] + spec_dashes(17), seq![43u8, 10u8]);
    lemma_ascii_cat(spec_board_border(), spec_board_rows(m, 7));
    lemma_ascii_cat(spec_board_border() + spec_board_rows(m, 7), spec_board_border());
    lemma_ascii_cat(
        spec_board_border() + spec_board_rows(m, 7) + spec_board_border(),
        seq![
            32u8,
            32u8,
            32u8,
            32u8,
            97u8,
            32u8,
            98u8,
            32u8,
            99u8,
            32u8,
            100u8,
            32u8,
            101u8,
            32u8,
            102u8,
            32u8,
            103u8,
            32u8,
            104u8,
        ],
    );
}

/// Every byte of a dash run is plain ASCII.
proof fn lemma_dashes_ascii(k: int)
    ensures
        ascii_seq(spec_dashes(k)),
    decreases k,
{
    if k > 0 {
        lemma_dashes_ascii(k - 1);
        lemma_ascii_cat(spec_dashes(k - 1), seq![45u8]);
    }
}

/// Every byte of the grid rows is plain ASCII.
proof fn lemma_rows_ascii(m: PosModel, r: int)
    requires
        r <= 7,
    ensures
        ascii_seq(spec_board_rows(m, r)),
    decreases r + 1,
{
    if r >= 0 {
        lemma_cells_ascii(m, r, 0);
        lemma_rows_ascii(m, r - 1);
        let label = seq![(49 + r) as u8, 32u8, 124u8, 32u8];
        lemma_ascii_cat(label, spec_board_cells(m, r, 0));
        lemma_ascii_cat(label + spec_board_cells(m, r, 0), seq![124u8, 10u8]);
        lemma_ascii_cat(
            label + spec_board_cells(m, r, 0) + seq![124u8, 10u8],
            spec_board_rows(m, r - 1),
        );
    }
}

/// Every byte of one row's cells is plain ASCII.
proof fn lemma_cells_ascii(m: PosModel, r: int, f: int)
    ensures
        ascii_seq(spec_board_cells(m, r, f)),
    decreases 8 - f,
{
    if f < 8 {
        lemma_cells_ascii(m, r, f + 1);
        let head: Seq<u8> = match spec_scan(m, (r * 8 + f) as usize) {
            Some(cp) => seq![spec_piece_byte(cp.0, cp.1)],
            None => seq![46u8],
        };
        assert(ascii_seq(head));
        lemma_ascii_cat(head, seq![32u8]);
        lemma_ascii_cat(head + seq![32u8], spec_board_cells(m, r, f + 1));
    }
}

} // verus!
