//! The position state: piece bitboards, the per-ply state stack, the
//! incrementally maintained Zobrist hash, and the cached analysis masks.

use vstd::prelude::*;

use crate::bits::{bb_bit, bit_scan64, pcount};
use crate::lookup::{
    d12_moves, hv_moves, knight_mask, pawn_attacks, spec_d12_moves, spec_hv_moves,
    spec_knight_mask, spec_pawn_attacks, spec_zobrist_castle, spec_zobrist_ep,
    spec_zobrist_piece, sq_bb, zobrist_castle, zobrist_ep, zobrist_piece,
};
use crate::types::{Color, Piece, Square};

verus! {

/// Represents the state of the game at one ply.
#[derive(Debug, Clone, Copy, PartialEq, Eq)]
pub struct State {
    pub turn: usize,
    pub castling: u8,
    pub captured: Option<usize>,
    pub ep: Option<usize>,
    pub hm: usize,
    pub fm: usize,
}

/// The empty state every history slot starts from.
pub open spec fn state_empty() -> State {
    State { turn: 0, castling: 0, captured: None, ep: None, hm: 0, fm: 0 }
}

impl State {
    pub const WHITE_00: u8 = 0b0001;

    pub const WHITE_000: u8 = 0b0010;

    pub const WHITE_CASTLING: u8 = 0b0011;

    pub const BLACK_00: u8 = 0b0100;

    pub const BLACK_000: u8 = 0b1000;

    pub const BLACK_CASTLING: u8 = 0b1100;

    pub const ALL_CASTLING: u8 = 0b1111;

    /// Creates an empty state.
    pub fn new() -> (r: State)
        ensures
            r == state_empty(),
    {
        State { turn: 0, castling: 0, captured: None, ep: None, hm: 0, fm: 0 }
    }

    /// Checks if you can castle one side.
    pub fn can_castle(self, side: u8) -> (r: bool)
        ensures
            r == (self.castling & side != 0),
    {
        self.castling & side != 0
    }

    /// Both castling bits of a color.
    pub fn castlings(color: usize) -> (r: u8)
        ensures
            r == spec_castlings(color),
    {
        if color == 0 {
            Self::WHITE_CASTLING
        } else {
            Self::BLACK_CASTLING
        }
    }

    /// The king-side castling bit of a color.
    pub fn short(color: usize) -> (r: u8)
        ensures
            r == spec_short(color),
    {
        if color == 0 {
            Self::WHITE_00
        } else {
            Self::BLACK_00
        }
    }

    /// The queen-side castling bit of a color.
    pub fn long(color: usize) -> (r: u8)
        ensures
            r == spec_long(color),
    {
        if color == 0 {
            Self::WHITE_000
        } else {
            Self::BLACK_000
        }
    }

    /// The home square of a color's king.
    pub fn king_start(color: usize) -> (r: usize)
        ensures
            r == spec_king_start(color),
    {
        if color == 0 {
            Square::E1
        } else {
            Square::E8
        }
    }

    /// The home corner of a color's king-side rook.
    pub fn short_rook(color: usize) -> (r: usize)
        ensures
            r == spec_short_rook(color),
    {
        if color == 0 {
            Square::H1
        } else {
            Square::H8
        }
    }

    /// The home corner of a color's queen-side rook.
    pub fn long_rook(color: usize) -> (r: usize)
        ensures
            r == spec_long_rook(color),
    {
        if color == 0 {
            Square::A1
        } else {
            Square::A8
        }
    }

    /// The king's destination when castling short.
    pub fn short_king_target(color: usize) -> (r: usize)
        ensures
            r == spec_short_king_target(color),
    {
        if color == 0 {
            Square::G1
        } else {
            Square::G8
        }
    }

    /// The king's destination when castling long.
    pub fn long_king_target(color: usize) -> (r: usize)
        ensures
            r == spec_long_king_target(color),
    {
        if color == 0 {
            Square::C1
        } else {
            Square::C8
        }
    }
}

/// Both castling bits of a color.
pub open spec fn spec_castlings(color: usize) -> u8 {
    if color == 0 {
        0b0011u8
    } else {
        0b1100u8
    }
}

/// The king-side castling bit of a color.
pub open spec fn spec_short(color: usize) -> u8 {
    if color == 0 {
        0b0001u8
    } else {
        0b0100u8
    }
}

/// The queen-side castling bit of a color.
pub open spec fn spec_long(color: usize) -> u8 {
    if color == 0 {
        0b0010u8
    } else {
        0b1000u8
    }
}

/// The home square of a color's king.
pub open spec fn spec_king_start(color: usize) -> usize {
    if color == 0 {
        4
    } else {
        60
    }
}

/// The home corner of a color's king-side rook.
pub open spec fn spec_short_rook(color: usize) -> usize {
    if color == 0 {
        7
    } else {
        63
    }
}

/// The home corner of a color's queen-side rook.
pub open spec fn spec_long_rook(color: usize) -> usize {
    if color == 0 {
        0
    } else {
        56
    }
}

/// The king's destination when castling short.
pub open spec fn spec_short_king_target(color: usize) -> usize {
    if color == 0 {
        6
    } else {
        62
    }
}

/// The king's destination when castling long.
pub open spec fn spec_long_king_target(color: usize) -> usize {
    if color == 0 {
        2
    } else {
        58
    }
}

/// The mathematical model of a position: the twelve boards as a nested
/// sequence, the history as a sequence of states, and the cached values.
#[verifier::ext_equal]
pub struct PosModel {
    pub ply: int,
    pub pieces: Seq<Seq<u64>>,
    pub history: Seq<State>,
    pub hash: u64,
    pub pin_hv: u64,
    pub pin_d12: u64,
    pub danger: u64,
    pub checkmask: u64,
}

/// Represents a position.
#[derive(Debug, Clone, Copy, PartialEq)]
pub struct Position {
    pub ply: usize,
    pub pieces_bb: [[u64; 6]; 2],
    pub history: [State; 216],
    pub hash: u64,
    pub pin_hv: u64,
    pub pin_d12: u64,
    pub danger: u64,
    pub checkmask: u64,
}

impl View for Position {
    type V = PosModel;

    open spec fn view(&self) -> PosModel {
        PosModel {
            ply: self.ply as int,
            pieces: Seq::new(2, |c: int| Seq::new(6, |p: int| self.pieces_bb[c][p])),
            history: self.history@,
            hash: self.hash,
            pin_hv: self.pin_hv,
            pin_d12: self.pin_d12,
            danger: self.danger,
            checkmask: self.checkmask,
        }
    }
}

/// The model has two rows of six boards and a full history.
pub open spec fn dims_ok(m: PosModel) -> bool {
    m.pieces.len() == 2 && m.pieces[0].len() == 6 && m.pieces[1].len() == 6 && m.history.len()
        == 216
}

/// No square carries two pieces: distinct boards never intersect.
pub open spec fn disjoint_pieces(pieces: Seq<Seq<u64>>) -> bool {
    forall|c: int, p: int, c2: int, p2: int|
        0 <= c < 2 && 0 <= p < 6 && 0 <= c2 < 2 && 0 <= p2 < 6 && !(c == c2 && p == p2)
            ==> #[trigger] (pieces[c][p] & pieces[c2][p2]) == 0
}

/// No square carries two pieces: distinct boards never intersect.
pub open spec fn disjoint_ok(m: PosModel) -> bool {
    disjoint_pieces(m.pieces)
}

/// Each side has exactly one king.
pub open spec fn kings_ok(m: PosModel) -> bool {
    pcount(m.pieces[0][5]) == 1 && pcount(m.pieces[1][5]) == 1
}

/// Zobrist fold of one board from bit `k` upward.
pub open spec fn zob_board(bb: u64, c: usize, p: usize, k: nat) -> u64
    decreases 64 - k,
{
    if k >= 64 {
        0
    } else {
        let rest = zob_board(bb, c, p, (k + 1) as nat);
        if bb_bit(bb, k as u64) {
            spec_zobrist_piece(c, p, k as usize) ^ rest
        } else {
            rest
        }
    }
}

/// Zobrist fold of the boards from row-major index `i` upward.
pub open spec fn zob_idx(pieces: Seq<Seq<u64>>, i: nat) -> u64
    decreases 12 - i,
{
    if i >= 12 {
        0
    } else {
        zob_board(pieces[(i / 6) as int][(i % 6) as int], (i / 6) as usize, (i % 6) as usize, 0)
            ^ zob_idx(pieces, (i + 1) as nat)
    }
}

/// Zobrist hash of the piece placement alone.
pub open spec fn zob_all(pieces: Seq<Seq<u64>>) -> u64 {
    zob_idx(pieces, 0)
}

/// The piece-placement hash matches the boards.
pub open spec fn hash_ok(m: PosModel) -> bool {
    m.hash == zob_all(m.pieces)
}

/// The ply lies inside the history, every later frame is pristine, and the
/// current frame names a real side to move.
pub open spec fn history_ok(m: PosModel) -> bool {
    0 <= m.ply < 216 && m.history[m.ply].turn < 2 && (match m.history[m.ply].ep {
        Some(e) => e < 64,
        None => true,
    }) && (forall|i: int| m.ply < i < 216 ==> m.history[i] == state_empty())
}

/// The structural well-formedness of a position: board shape, disjoint
/// boards, one king per side, a correct hash and a clean history tail.
pub open spec fn wf_core(m: PosModel) -> bool {
    dims_ok(m) && disjoint_ok(m) && kings_ok(m) && hash_ok(m) && history_ok(m)
}

/// Flipping one bit of a board flips its key in the board fold.
#[verifier::rlimit(50)]
proof fn lemma_zob_board_flip_k(bb: u64, c: usize, p: usize, s: u64, k: nat)
    requires
        s < 64,
        k <= 64,
    ensures
        k <= s ==> zob_board((bb ^ (1u64 << s)), c, p, k) == zob_board(bb, c, p, k)
            ^ spec_zobrist_piece(c, p, s as usize),
        k > s ==> zob_board((bb ^ (1u64 << s)), c, p, k) == zob_board(bb, c, p, k),
    decreases 64 - k,
{
    if k >= 64 {
    } else {
        crate::bits::lemma_mask_edit();
        lemma_zob_board_flip_k(bb, c, p, s, (k + 1) as nat);
        let kk = k as u64;
        assert(s < 64 && kk < 64 && kk != s ==> bb_bit((bb ^ (1u64 << s)), kk) == bb_bit(bb, kk))
            by (bit_vector);
        assert(s < 64 && kk < 64 && kk == s ==> bb_bit((bb ^ (1u64 << s)), kk) == !bb_bit(bb, kk))
            by (bit_vector);
        let rest = zob_board(bb, c, p, (k + 1) as nat);
        let key_s = spec_zobrist_piece(c, p, s as usize);
        let key_k = spec_zobrist_piece(c, p, k as usize);
        if k == s {
            if bb_bit(bb, kk) {
                crate::bits::lemma_xor_shuffle(rest, key_s, key_s);
                assert(rest == (key_s ^ rest) ^ key_s);
            } else {
                crate::bits::lemma_xor_shuffle(key_s, rest, rest);
                assert(key_s ^ rest == rest ^ key_s);
            }
        } else if k < s {
            crate::bits::lemma_xor_shuffle(key_k, rest, key_s);
            assert(key_k ^ (rest ^ key_s) == (key_k ^ rest) ^ key_s);
        }
    }
}

/// Flipping one bit of one board flips its key in the whole-placement fold,
/// from index `i` upward.
#[verifier::rlimit(50)]
proof fn lemma_zob_idx_flip(
    pieces: Seq<Seq<u64>>,
    upd: Seq<Seq<u64>>,
    c: usize,
    p: usize,
    s: u64,
    i: nat,
)
    requires
        pieces.len() == 2,
        pieces[0].len() == 6,
        pieces[1].len() == 6,
        c < 2,
        p < 6,
        s < 64,
        i <= 12,
        upd == pieces.update(
            c as int,
            pieces[c as int].update(p as int, (pieces[c as int][p as int] ^ (1u64 << s))),
        ),
    ensures
        i <= c * 6 + p ==> zob_idx(upd, i) == zob_idx(pieces, i) ^ spec_zobrist_piece(
            c,
            p,
            s as usize,
        ),
        i > c * 6 + p ==> zob_idx(upd, i) == zob_idx(pieces, i),
    decreases 12 - i,
{
    if i >= 12 {
    } else {
        lemma_zob_idx_flip(pieces, upd, c, p, s, (i + 1) as nat);
        let t = (c * 6 + p) as nat;
        let ci = (i / 6) as int;
        let pi = (i % 6) as int;
        let head = zob_board(pieces[ci][pi], (i / 6) as usize, (i % 6) as usize, 0);
        let rest = zob_idx(pieces, (i + 1) as nat);
        let key = spec_zobrist_piece(c, p, s as usize);
        if i == t {
            assert(ci == c && pi == p);
            assert(upd[ci][pi] == (pieces[ci][pi] ^ (1u64 << s)));
            lemma_zob_board_flip_k(pieces[ci][pi], c, p, s, 0);
            crate::bits::lemma_xor_shuffle(head, key, rest);
            crate::bits::lemma_xor_shuffle(head, rest, key);
            crate::bits::lemma_xor_shuffle(key, rest, head);
            assert((head ^ key) ^ rest == (head ^ rest) ^ key);
        } else if i < t {
            assert(upd[ci][pi] == pieces[ci][pi]);
            crate::bits::lemma_xor_shuffle(head, rest, key);
            assert(head ^ (rest ^ key) == (head ^ rest) ^ key);
        } else {
            assert(upd[ci][pi] == pieces[ci][pi]);
        }
    }
}

/// Flipping one bit of one board flips its key in the placement hash.
pub proof fn lemma_zob_all_flip(pieces: Seq<Seq<u64>>, c: usize, p: usize, s: u64)
    requires
        pieces.len() == 2,
        pieces[0].len() == 6,
        pieces[1].len() == 6,
        c < 2,
        p < 6,
        s < 64,
    ensures
        zob_all(
            pieces.update(
                c as int,
                pieces[c as int].update(p as int, (pieces[c as int][p as int] ^ (1u64 << s))),
            ),
        ) == zob_all(pieces) ^ spec_zobrist_piece(c, p, s as usize),
{
    let upd = pieces.update(
        c as int,
        pieces[c as int].update(p as int, (pieces[c as int][p as int] ^ (1u64 << s))),
    );
    lemma_zob_idx_flip(pieces, upd, c, p, s, 0);
}

/// The first board holding square `s`, scanning White's boards pawn to king
/// and then Black's; under disjointness it is the only one.
pub open spec fn spec_scan_p(pieces: Seq<Seq<u64>>, s: usize) -> Option<(usize, usize)> {
    let b = s as u64;
    if bb_bit(pieces[0][0], b) {
        Some((0usize, 0usize))
    } else if bb_bit(pieces[0][1], b) {
        Some((0usize, 1usize))
    } else if bb_bit(pieces[0][2], b) {
        Some((0usize, 2usize))
    } else if bb_bit(pieces[0][3], b) {
        Some((0usize, 3usize))
    } else if bb_bit(pieces[0][4], b) {
        Some((0usize, 4usize))
    } else if bb_bit(pieces[0][5], b) {
        Some((0usize, 5usize))
    } else if bb_bit(pieces[1][0], b) {
        Some((1usize, 0usize))
    } else if bb_bit(pieces[1][1], b) {
        Some((1usize, 1usize))
    } else if bb_bit(pieces[1][2], b) {
        Some((1usize, 2usize))
    } else if bb_bit(pieces[1][3], b) {
        Some((1usize, 3usize))
    } else if bb_bit(pieces[1][4], b) {
        Some((1usize, 4usize))
    } else if bb_bit(pieces[1][5], b) {
        Some((1usize, 5usize))
    } else {
        None
    }
}

/// The first board holding square `s` of a position.
pub open spec fn spec_scan(m: PosModel, s: usize) -> Option<(usize, usize)> {
    spec_scan_p(m.pieces, s)
}

/// The color occupying square `s`, if any.
pub open spec fn spec_color_on(m: PosModel, s: usize) -> Option<usize> {
    match spec_scan(m, s) {
        Some((c, p)) => Some(c),
        None => None,
    }
}

/// The piece kind occupying square `s`, if any.
pub open spec fn spec_piece_on(m: PosModel, s: usize) -> Option<usize> {
    match spec_scan(m, s) {
        Some((c, p)) => Some(p),
        None => None,
    }
}

/// All boards of one color folded together.
pub open spec fn spec_color_bb(m: PosModel, c: usize) -> u64 {
    m.pieces[c as int][0] | m.pieces[c as int][1] | m.pieces[c as int][2] | m.pieces[c as int][3]
        | m.pieces[c as int][4] | m.pieces[c as int][5]
}

/// Every occupied square of the board.
pub open spec fn spec_occ(m: PosModel) -> u64 {
    spec_color_bb(m, 0) | spec_color_bb(m, 1)
}

/// Rooks and queens of one color.
pub open spec fn spec_hv_sliders(m: PosModel, c: usize) -> u64 {
    m.pieces[c as int][3] | m.pieces[c as int][4]
}

/// Bishops and queens of one color.
pub open spec fn spec_d12_sliders(m: PosModel, c: usize) -> u64 {
    m.pieces[c as int][2] | m.pieces[c as int][4]
}

/// The square of the one king of a color.
pub open spec fn spec_king_sq(m: PosModel, c: usize) -> usize {
    vstd::std_specs::bits::u64_trailing_zeros(m.pieces[c as int][5]) as usize
}

/// Flipping one bit of a board changes its population count by one.
pub proof fn lemma_pcount_flip(bb: u64, s: u64)
    requires
        s < 64,
    ensures
        bb_bit(bb, s) ==> pcount((bb ^ (1u64 << s))) == pcount(bb) - 1,
        !bb_bit(bb, s) ==> pcount((bb ^ (1u64 << s))) == pcount(bb) + 1,
    decreases s,
{
    let bb2 = (bb ^ (1u64 << s)) as u64;
    assert(pcount(bb) == (bb & 1) + pcount(bb / 2)) by {
        if bb == 0 {
            crate::bits::lemma_mask_edit();
        }
    }
    assert(pcount(bb2) == (bb2 & 1) + pcount(bb2 / 2)) by {
        if bb2 == 0 {
            crate::bits::lemma_mask_edit();
        }
    }
    if s == 0 {
        assert((bb ^ (1u64 << 0u64)) / 2 == bb / 2 && (((bb >> 0u64) & 1 == 1) ==> ((bb ^ (1u64
            << 0u64)) & 1) == 0 && (bb & 1) == 1) && (!((bb >> 0u64) & 1 == 1) ==> ((bb ^ (1u64
            << 0u64)) & 1) == 1 && (bb & 1) == 0)) by (bit_vector);
    } else {
        lemma_pcount_flip(bb / 2, (s - 1) as u64);
        assert(1 <= s < 64 ==> (bb ^ (1u64 << s)) / 2 == ((bb / 2) ^ (1u64 << ((s - 1) as u64)))
            && ((bb ^ (1u64 << s)) & 1) == (bb & 1) && (((bb >> s) & 1) == (((bb / 2) >> ((s
            - 1) as u64)) & 1))) by (bit_vector);
    }
}

/// A board fold over an empty board is zero, from any index upward.
proof fn lemma_zob_board_empty(c: usize, p: usize, k: nat)
    ensures
        zob_board(0u64, c, p, k) == 0,
    decreases 64 - k,
{
    if k < 64 {
        lemma_zob_board_empty(c, p, (k + 1) as nat);
        let kk = k as u64;
        crate::bits::lemma_mask_edit();
        assert(!bb_bit(0u64, kk));
    }
}

/// The placement hash of an all-empty board is zero.
pub proof fn lemma_zob_all_empty(pieces: Seq<Seq<u64>>)
    requires
        pieces.len() == 2,
        pieces[0].len() == 6,
        pieces[1].len() == 6,
        forall|c: int, p: int| 0 <= c < 2 && 0 <= p < 6 ==> #[trigger] pieces[c][p] == 0,
    ensures
        zob_all(pieces) == 0,
{
    lemma_zob_idx_empty(pieces, 0);
}

/// Helper for [`lemma_zob_all_empty`], folding from index `i`.
proof fn lemma_zob_idx_empty(pieces: Seq<Seq<u64>>, i: nat)
    requires
        pieces.len() == 2,
        pieces[0].len() == 6,
        pieces[1].len() == 6,
        forall|c: int, p: int| 0 <= c < 2 && 0 <= p < 6 ==> #[trigger] pieces[c][p] == 0,
        i <= 12,
    ensures
        zob_idx(pieces, i) == 0,
    decreases 12 - i,
{
    if i < 12 {
        lemma_zob_idx_empty(pieces, (i + 1) as nat);
        lemma_zob_board_empty((i / 6) as usize, (i % 6) as usize, 0);
        crate::bits::lemma_xor_shuffle(0u64, 0u64, 0u64);
    }
}

impl Position {
    /// Creates a new, empty position.
    pub fn new() -> (r: Position)
        ensures
            dims_ok(r@),
            r@.ply == 0,
            forall|c: int, p: int| 0 <= c < 2 && 0 <= p < 6 ==> #[trigger] r@.pieces[c][p] == 0,
            forall|i: int| 0 <= i < 216 ==> r@.history[i] == state_empty(),
            r@.hash == 0,
            hash_ok(r@),
            r@.pin_hv == 0,
            r@.pin_d12 == 0,
            r@.danger == 0,
            r@.checkmask == 0,
            disjoint_ok(r@),
    {
        let st = State::new();
        let r = Position {
            ply: 0,
            pieces_bb: [[0u64, 0u64, 0u64, 0u64, 0u64, 0u64], [0u64, 0u64, 0u64, 0u64, 0u64, 0u64]],
            history: vstd::array::array_fill_for_copy_types::<State, 216>(st),
            hash: 0,
            pin_hv: 0,
            pin_d12: 0,
            danger: 0,
            checkmask: 0,
        };
        proof {
            broadcast use vstd::array::axiom_spec_array_fill_for_copy_type;

            lemma_zob_all_empty(r@.pieces);
            crate::bits::lemma_mask_edit();
        }
        r
    }

    /// The first board holding square `s`, with its color and kind.
    pub fn piece_and_color_on(&self, s: usize) -> (r: Option<(usize, usize)>)
        requires
            s < 64,
        ensures
            r == spec_scan(self@, s),
    {
        let b = sq_bb(s);
        proof {
            lemma_scan_bits(self@, s);
        }
        if self.pieces_bb[0][0] & b != 0 {
            Some((0, 0))
        } else if self.pieces_bb[0][1] & b != 0 {
            Some((0, 1))
        } else if self.pieces_bb[0][2] & b != 0 {
            Some((0, 2))
        } else if self.pieces_bb[0][3] & b != 0 {
            Some((0, 3))
        } else if self.pieces_bb[0][4] & b != 0 {
            Some((0, 4))
        } else if self.pieces_bb[0][5] & b != 0 {
            Some((0, 5))
        } else if self.pieces_bb[1][0] & b != 0 {
            Some((1, 0))
        } else if self.pieces_bb[1][1] & b != 0 {
            Some((1, 1))
        } else if self.pieces_bb[1][2] & b != 0 {
            Some((1, 2))
        } else if self.pieces_bb[1][3] & b != 0 {
            Some((1, 3))
        } else if self.pieces_bb[1][4] & b != 0 {
            Some((1, 4))
        } else if self.pieces_bb[1][5] & b != 0 {
            Some((1, 5))
        } else {
            None
        }
    }

    /// Gets the color of a piece in a specific square.
    pub fn color_on(self, square: usize) -> (r: Option<usize>)
        requires
            square < 64,
        ensures
            r == spec_color_on(self@, square),
    {
        match self.piece_and_color_on(square) {
            Some((c, p)) => Some(c),
            None => None,
        }
    }

    /// Gets the type of a piece in a specific square.
    pub fn piece_on(self, square: usize) -> (r: Option<usize>)
        requires
            square < 64,
        ensures
            r == spec_piece_on(self@, square),
    {
        match self.piece_and_color_on(square) {
            Some((c, p)) => Some(p),
            None => None,
        }
    }

    /// Flips one square of one board and folds its key into the hash.
    fn toggle(&mut self, c: usize, p: usize, s: usize)
        requires
            c < 2,
            p < 6,
            s < 64,
        ensures
            final(self)@.pieces == old(self)@.pieces.update(
                c as int,
                old(self)@.pieces[c as int].update(
                    p as int,
                    (old(self)@.pieces[c as int][p as int] ^ (1u64 << (s as u64))),
                ),
            ),
            final(self)@.hash == old(self)@.hash ^ spec_zobrist_piece(c, p, s),
            hash_ok(old(self)@) ==> hash_ok(final(self)@),
            final(self)@.ply == old(self)@.ply,
            final(self)@.history == old(self)@.history,
            final(self)@.pin_hv == old(self)@.pin_hv,
            final(self)@.pin_d12 == old(self)@.pin_d12,
            final(self)@.danger == old(self)@.danger,
            final(self)@.checkmask == old(self)@.checkmask,
    {
        let b = sq_bb(s);
        let row = self.pieces_bb[c];
        let mut row2 = row;
        row2[p] = row[p] ^ b;
        self.pieces_bb[c] = row2;
        self.hash = self.hash ^ zobrist_piece(c, p, s);
        proof {
            assert(self@.pieces =~~= old(self)@.pieces.update(
                c as int,
                old(self)@.pieces[c as int].update(
                    p as int,
                    (old(self)@.pieces[c as int][p as int] ^ (1u64 << (s as u64))),
                ),
            ));
            if hash_ok(old(self)@) {
                lemma_zob_all_flip(old(self)@.pieces, c, p, s as u64);
            }
        }
    }
}

/// Each branch of the board scan answers one bit test.
proof fn lemma_scan_bits(m: PosModel, s: usize)
    requires
        s < 64,
    ensures
        forall|bb: u64| (bb & (1u64 << (s as u64)) != 0) == #[trigger] bb_bit(bb, s as u64),
{
    assert forall|bb: u64| (bb & (1u64 << (s as u64)) != 0) == #[trigger] bb_bit(bb, s as u64) by {
        let ss = s as u64;
        crate::bits::lemma_mask_edit();
        assert((bb & (1u64 << ss) != 0) == bb_bit(bb, ss));
    }
}

/// After clearing the occupant of `s`, the boards with that square cleared.
pub open spec fn spec_clear_sq(pieces: Seq<Seq<u64>>, s: usize) -> Seq<Seq<u64>> {
    match spec_scan_p(pieces, s) {
        Some(cp) => pieces.update(
            cp.0 as int,
            pieces[cp.0 as int].update(
                cp.1 as int,
                (pieces[cp.0 as int][cp.1 as int] & !(1u64 << (s as u64))),
            ),
        ),
        None => pieces,
    }
}

/// The boards with square `s` added to board `(c, p)`.
pub open spec fn spec_put_sq(pieces: Seq<Seq<u64>>, c: usize, p: usize, s: usize) -> Seq<
    Seq<u64>,
> {
    pieces.update(
        c as int,
        pieces[c as int].update(p as int, (pieces[c as int][p as int] | (1u64 << (s as u64)))),
    )
}

/// The boards with the mover's board toggled on `from` and `to`.
pub open spec fn spec_moved(pieces: Seq<Seq<u64>>, c: usize, p: usize, from: usize, to: usize) -> Seq<
    Seq<u64>,
> {
    pieces.update(
        c as int,
        pieces[c as int].update(
            p as int,
            (pieces[c as int][p as int] ^ ((1u64 << (from as u64)) | (1u64 << (to as u64)))),
        ),
    )
}

impl Position {
    /// Moves a piece from a square to another; the destination must be empty.
    pub fn move_quiet(&mut self, from: usize, to: usize)
        requires
            from < 64,
            to < 64,
            from != to,
            dims_ok(old(self)@),
            spec_scan(old(self)@, from) is Some,
            spec_scan(old(self)@, to) is None,
        ensures
            dims_ok(final(self)@),
            spec_scan(old(self)@, from) matches Some(cp) ==> final(self)@.pieces == spec_moved(
                old(self)@.pieces,
                cp.0,
                cp.1,
                from,
                to,
            ) && final(self)@.hash == (old(self)@.hash ^ spec_zobrist_piece(cp.0, cp.1, from))
                ^ spec_zobrist_piece(cp.0, cp.1, to),
            hash_ok(old(self)@) ==> hash_ok(final(self)@),
            disjoint_ok(old(self)@) ==> disjoint_ok(final(self)@),
            disjoint_ok(old(self)@) && kings_ok(old(self)@) ==> kings_ok(final(self)@),
            final(self)@.ply == old(self)@.ply,
            final(self)@.history == old(self)@.history,
            final(self)@.pin_hv == old(self)@.pin_hv,
            final(self)@.pin_d12 == old(self)@.pin_d12,
            final(self)@.danger == old(self)@.danger,
            final(self)@.checkmask == old(self)@.checkmask,
    {
        let ghost m0 = self@;
        match self.piece_and_color_on(from) {
            Some((c, p)) => {
                self.toggle(c, p, from);
                self.toggle(c, p, to);
                proof {
                    let f = from as u64;
                    let t = to as u64;
                    let bb = m0.pieces[c as int][p as int];
                    assert(f < 64 && t < 64 && f != t ==> ((bb ^ (1u64 << f)) ^ (1u64 << t)) == (bb
                        ^ ((1u64 << f) | (1u64 << t)))) by (bit_vector);
                    assert(self@.pieces =~~= spec_moved(m0.pieces, c, p, from, to));
                    if disjoint_ok(m0) {
                        lemma_scan_none_clear(m0.pieces, to);
                        lemma_move_keeps_disjoint(m0.pieces, c, p, from, to);
                        if kings_ok(m0) {
                            assert(bb_bit(bb, f));
                            assert(!bb_bit(bb, t)) by {
                                lemma_scan_none_clear(m0.pieces, to);
                            }
                            assert(f != t && f < 64 && t < 64 ==> bb_bit((bb ^ (1u64 << f)), t)
                                == bb_bit(bb, t)) by (bit_vector);
                            lemma_pcount_flip(bb, f);
                            lemma_pcount_flip((bb ^ (1u64 << f)), t);
                        }
                    }
                }
            },
            None => {
                proof {
                    assert(false);
                }
            },
        }
    }

    /// Unsets a square, removing whatever piece stands on it.
    pub fn unset_square(&mut self, square: usize)
        requires
            square < 64,
            dims_ok(old(self)@),
        ensures
            dims_ok(final(self)@),
            final(self)@.pieces == spec_clear_sq(old(self)@.pieces, square),
            spec_scan(old(self)@, square) is None ==> *final(self) == *old(self),
            spec_scan(old(self)@, square) matches Some(cp) ==> final(self)@.hash == old(
                self,
            )@.hash ^ spec_zobrist_piece(cp.0, cp.1, square),
            hash_ok(old(self)@) ==> hash_ok(final(self)@),
            disjoint_ok(old(self)@) ==> disjoint_ok(final(self)@),
            final(self)@.ply == old(self)@.ply,
            final(self)@.history == old(self)@.history,
            final(self)@.pin_hv == old(self)@.pin_hv,
            final(self)@.pin_d12 == old(self)@.pin_d12,
            final(self)@.danger == old(self)@.danger,
            final(self)@.checkmask == old(self)@.checkmask,
    {
        let ghost m0 = self@;
        match self.piece_and_color_on(square) {
            Some((c, p)) => {
                self.toggle(c, p, square);
                proof {
                    let ss = square as u64;
                    let bb = m0.pieces[c as int][p as int];
                    assert(bb_bit(bb, ss));
                    assert(ss < 64 && bb_bit(bb, ss) ==> (bb ^ (1u64 << ss)) == (bb & !(1u64
                        << ss))) by (bit_vector);
                    assert(self@.pieces =~~= spec_clear_sq(m0.pieces, square));
                    if disjoint_ok(m0) {
                        lemma_clear_keeps_disjoint(m0.pieces, c, p, square);
                    }
                }
            },
            None => {
                proof {
                    assert(self@.pieces =~~= spec_clear_sq(m0.pieces, square));
                }
            },
        }
    }

    /// Sets a square, replacing whatever piece stood on it.
    pub fn set_square(&mut self, square: usize, piece: usize, color: usize)
        requires
            square < 64,
            piece < 6,
            color < 2,
            dims_ok(old(self)@),
            disjoint_ok(old(self)@),
        ensures
            dims_ok(final(self)@),
            disjoint_ok(final(self)@),
            final(self)@.pieces == spec_put_sq(spec_clear_sq(old(self)@.pieces, square), color, piece,
                square,
            ),
            hash_ok(old(self)@) ==> hash_ok(final(self)@),
            final(self)@.ply == old(self)@.ply,
            final(self)@.history == old(self)@.history,
            final(self)@.pin_hv == old(self)@.pin_hv,
            final(self)@.pin_d12 == old(self)@.pin_d12,
            final(self)@.danger == old(self)@.danger,
            final(self)@.checkmask == old(self)@.checkmask,
    {
        self.unset_square(square);
        let ghost m1 = self@;
        proof {
            lemma_clear_scan_none(old(self)@.pieces, square);
        }
        self.toggle(color, piece, square);
        proof {
            let ss = square as u64;
            let bb = m1.pieces[color as int][piece as int];
            assert(!bb_bit(bb, ss)) by {
                lemma_scan_none_clear(m1.pieces, square);
            }
            assert(ss < 64 && !bb_bit(bb, ss) ==> (bb ^ (1u64 << ss)) == (bb | (1u64 << ss)))
                by (bit_vector);
            assert(self@.pieces =~~= spec_put_sq(m1.pieces, color, piece, square));
            lemma_scan_none_clear(m1.pieces, square);
            lemma_put_keeps_disjoint(m1.pieces, color, piece, square);
        }
    }
}

/// When the scan finds nothing on a square, every board is clear there.
pub proof fn lemma_scan_none_clear(pieces: Seq<Seq<u64>>, s: usize)
    requires
        pieces.len() == 2,
        pieces[0].len() == 6,
        pieces[1].len() == 6,
        spec_scan_p(pieces, s) is None,
    ensures
        forall|c: int, p: int|
            0 <= c < 2 && 0 <= p < 6 ==> !bb_bit(#[trigger] pieces[c][p], s as u64),
{
}

/// After clearing a square under disjointness, no board holds it.
pub proof fn lemma_clear_scan_none(pieces: Seq<Seq<u64>>, s: usize)
    requires
        s < 64,
        pieces.len() == 2,
        pieces[0].len() == 6,
        pieces[1].len() == 6,
        disjoint_pieces(pieces),
    ensures
        forall|c: int, p: int|
            0 <= c < 2 && 0 <= p < 6 ==> !bb_bit(#[trigger] spec_clear_sq(pieces, s)[c][p], s as u64),
        spec_scan_p(spec_clear_sq(pieces, s), s) is None,
{
    let ss = s as u64;
    let cl = spec_clear_sq(pieces, s);
    match spec_scan_p(pieces, s) {
        Some(cp) => {
            let c0 = cp.0 as int;
            let p0 = cp.1 as int;
            let bb = pieces[c0][p0];
            assert(bb_bit(bb, ss));
            assert forall|c: int, p: int| 0 <= c < 2 && 0 <= p < 6 implies !bb_bit(
                #[trigger] cl[c][p],
                ss,
            ) by {
                crate::bits::lemma_mask_edit();
                if c == c0 && p == p0 {
                    assert(ss < 64 ==> !bb_bit((bb & !(1u64 << ss)), ss));
                } else {
                    let ob = pieces[c][p];
                    assert(ob & bb == 0);
                    assert(bb_bit(bb, ss) && ob & bb == 0 && ss < 64 ==> !bb_bit(ob, ss));
                }
            }
        },
        None => {
            lemma_scan_none_clear(pieces, s);
        },
    }
}

/// Clearing a set bit of one board keeps the boards disjoint.
pub proof fn lemma_clear_keeps_disjoint(pieces: Seq<Seq<u64>>, c: usize, p: usize, s: usize)
    requires
        c < 2,
        p < 6,
        s < 64,
        pieces.len() == 2,
        pieces[0].len() == 6,
        pieces[1].len() == 6,
        disjoint_pieces(pieces),
        bb_bit(pieces[c as int][p as int], s as u64),
    ensures
        disjoint_pieces(
            pieces.update(
                c as int,
                pieces[c as int].update(
                    p as int,
                    (pieces[c as int][p as int] ^ (1u64 << (s as u64))),
                ),
            ),
        ),
{
    let ss = s as u64;
    let pieces2 = pieces.update(
        c as int,
        pieces[c as int].update(p as int, (pieces[c as int][p as int] ^ (1u64 << ss))),
    );
    assert forall|a: int, b: int, a2: int, b2: int|
        0 <= a < 2 && 0 <= b < 6 && 0 <= a2 < 2 && 0 <= b2 < 6 && !(a == a2 && b == b2) implies #[trigger] (
    pieces2[a][b] & pieces2[a2][b2]) == 0 by {
        let x = pieces[a][b];
        let y = pieces[a2][b2];
        assert((x & y == 0 && ss < 64 ==> ((x ^ (1u64 << ss)) & y) == ((1u64 << ss) & y) && (x & (y
            ^ (1u64 << ss))) == (x & (1u64 << ss))) && (x & y == 0 && bb_bit(x, ss) && ss < 64
            ==> ((1u64 << ss) & y) == 0 && ((x ^ (1u64 << ss)) & y) == 0) && (x & y == 0 && bb_bit(
            y,
            ss,
        ) && ss < 64 ==> ((1u64 << ss) & x) == 0 && (x & (y ^ (1u64 << ss))) == 0) && (ss < 64
            ==> ((1u64 << ss) & x) == (x & (1u64 << ss)))) by (bit_vector);
    }
}

/// Adding a bit that no board holds to one board keeps the boards disjoint.
pub proof fn lemma_put_keeps_disjoint(pieces: Seq<Seq<u64>>, c: usize, p: usize, s: usize)
    requires
        c < 2,
        p < 6,
        s < 64,
        pieces.len() == 2,
        pieces[0].len() == 6,
        pieces[1].len() == 6,
        disjoint_pieces(pieces),
        forall|a: int, b: int|
            0 <= a < 2 && 0 <= b < 6 ==> !bb_bit(#[trigger] pieces[a][b], s as u64),
    ensures
        disjoint_pieces(spec_put_sq(pieces, c, p, s)),
{
    let ss = s as u64;
    let pieces2 = spec_put_sq(pieces, c, p, s);
    assert forall|a: int, b: int, a2: int, b2: int|
        0 <= a < 2 && 0 <= b < 6 && 0 <= a2 < 2 && 0 <= b2 < 6 && !(a == a2 && b == b2) implies #[trigger] (
    pieces2[a][b] & pieces2[a2][b2]) == 0 by {
        let x = pieces[a][b];
        let y = pieces[a2][b2];
        assert((x & y == 0 && !bb_bit(y, ss) && ss < 64 ==> ((x | (1u64 << ss)) & y) == 0) && (x
            & y == 0 && !bb_bit(x, ss) && ss < 64 ==> (x & (y | (1u64 << ss))) == 0))
            by (bit_vector);
    }
}

/// Moving a piece from a held square to a free square keeps the boards
/// disjoint.
pub proof fn lemma_move_keeps_disjoint(pieces: Seq<Seq<u64>>, c: usize, p: usize, from: usize, to: usize)
    requires
        c < 2,
        p < 6,
        from < 64,
        to < 64,
        from != to,
        pieces.len() == 2,
        pieces[0].len() == 6,
        pieces[1].len() == 6,
        disjoint_pieces(pieces),
        bb_bit(pieces[c as int][p as int], from as u64),
        forall|a: int, b: int|
            0 <= a < 2 && 0 <= b < 6 ==> !bb_bit(#[trigger] pieces[a][b], to as u64),
    ensures
        disjoint_pieces(spec_moved(pieces, c, p, from, to)),
{
    let f = from as u64;
    let t = to as u64;
    let pieces2 = spec_moved(pieces, c, p, from, to);
    assert forall|a: int, b: int, a2: int, b2: int|
        0 <= a < 2 && 0 <= b < 6 && 0 <= a2 < 2 && 0 <= b2 < 6 && !(a == a2 && b == b2) implies #[trigger] (
    pieces2[a][b] & pieces2[a2][b2]) == 0 by {
        let x = pieces[a][b];
        let y = pieces[a2][b2];
        assert((x & y == 0 && bb_bit(x, f) && !bb_bit(y, f) && !bb_bit(y, t) && f < 64 && t < 64
            && f != t ==> ((x ^ ((1u64 << f) | (1u64 << t))) & y) == 0) && (x & y == 0 && bb_bit(
            y,
            f,
        ) && !bb_bit(x, f) && !bb_bit(x, t) && f < 64 && t < 64 && f != t ==> (x & (y ^ ((1u64
            << f) | (1u64 << t)))) == 0) && (x & y == 0 && bb_bit(x, f) && f < 64 ==> !bb_bit(y, f))
            && (x & y == 0 && bb_bit(y, f) && f < 64 ==> !bb_bit(x, f))) by (bit_vector);
    }
}

/// The attack set every enemy piece kind contributes onto square `s`,
/// given the occupancy `occ`: the published mirror of `attackers_from`.
pub open spec fn spec_attackers_from(m: PosModel, s: usize, color: usize, occ: u64) -> u64 {
    (spec_pawn_attacks((1 - color) as usize, s) & m.pieces[color as int][0]) | (spec_knight_mask(s)
        & m.pieces[color as int][1]) | (spec_d12_moves(s, occ) & spec_d12_sliders(m, color)) | (
    spec_hv_moves(s, occ) & spec_hv_sliders(m, color))
}

/// The published hash: the placement hash mixed with the en-passant key
/// (when asked for) and the keys of the castling rights still held.
pub open spec fn spec_pub_hash(m: PosModel, enpassant: bool) -> u64 {
    let state = m.history[m.ply];
    let eph = match state.ep {
        Some(e) => if enpassant {
            spec_zobrist_ep(state.turn, e)
        } else {
            0u64
        },
        None => 0u64,
    };
    let c0 = if state.castling & 0b0001u8 != 0 {
        spec_zobrist_castle(state.turn, 0)
    } else {
        0u64
    };
    let c1 = if state.castling & 0b0010u8 != 0 {
        spec_zobrist_castle(state.turn, 1)
    } else {
        0u64
    };
    let c2 = if state.castling & 0b0100u8 != 0 {
        spec_zobrist_castle(state.turn, 2)
    } else {
        0u64
    };
    let c3 = if state.castling & 0b1000u8 != 0 {
        spec_zobrist_castle(state.turn, 3)
    } else {
        0u64
    };
    m.hash ^ eph ^ (((c0 ^ c1) ^ c2) ^ c3)
}

impl Position {
    /// Gets the actual state of the game.
    pub fn actual_state(&self) -> (r: State)
        requires
            self@.ply < 216,
        ensures
            r == self@.history[self@.ply],
    {
        self.history[self.ply]
    }

    /// Gets a bitboard of all the pieces of a specific color and type.
    pub fn bb_of(&self, color: usize, piece: usize) -> (r: u64)
        requires
            color < 2,
            piece < 6,
        ensures
            r == self@.pieces[color as int][piece as int],
    {
        self.pieces_bb[color][piece]
    }

    /// Gets a bitboard of all the pieces of a specific type.
    pub fn pieces(&self, piece: usize) -> (r: u64)
        requires
            piece < 6,
        ensures
            r == (self@.pieces[0][piece as int] | self@.pieces[1][piece as int]),
    {
        self.pieces_bb[0][piece] | self.pieces_bb[1][piece]
    }

    /// Gets a bitboard of all the pieces of a specific color.
    pub fn colors(&self, color: usize) -> (r: u64)
        requires
            color < 2,
        ensures
            r == spec_color_bb(self@, color),
    {
        self.pieces_bb[color][0] | self.pieces_bb[color][1] | self.pieces_bb[color][2]
            | self.pieces_bb[color][3] | self.pieces_bb[color][4] | self.pieces_bb[color][5]
    }

    /// Returns the square of the king of a certain color.
    pub fn king(&self, color: usize) -> (r: usize)
        requires
            color < 2,
            dims_ok(self@),
            kings_ok(self@),
        ensures
            r == spec_king_sq(self@, color),
            r < 64,
            bb_bit(self@.pieces[color as int][5], r as u64),
    {
        let bb = self.pieces_bb[color][5];
        proof {
            if bb == 0 {
                assert(pcount(0u64) == 0);
            }
        }
        bit_scan64(bb)
    }

    /// All sliding pieces that can move horizontally and vertically.
    pub fn hv_sliders(&self, color: usize) -> (r: u64)
        requires
            color < 2,
        ensures
            r == spec_hv_sliders(self@, color),
    {
        self.bb_of(color, Piece::ROOK) | self.bb_of(color, Piece::QUEEN)
    }

    /// All sliding pieces that can move diagonally.
    pub fn d12_sliders(&self, color: usize) -> (r: u64)
        requires
            color < 2,
        ensures
            r == spec_d12_sliders(self@, color),
    {
        self.bb_of(color, Piece::BISHOP) | self.bb_of(color, Piece::QUEEN)
    }

    /// Gets the occupancy of the board.
    pub fn occupancy(&self) -> (r: u64)
        ensures
            r == spec_occ(self@),
    {
        self.colors(Color::WHITE) | self.colors(Color::BLACK)
    }

    /// Gets all the opponent attackers from a square.
    pub fn attackers_from(&self, s: usize, color: usize, occ: u64) -> (r: u64)
        requires
            s < 64,
            color < 2,
        ensures
            r == spec_attackers_from(self@, s, color, occ),
    {
        (pawn_attacks(1 - color, s) & self.pieces_bb[color][0]) | (knight_mask(s)
            & self.pieces_bb[color][1]) | (d12_moves(s, occ) & self.d12_sliders(color)) | (
        hv_moves(s, occ) & self.hv_sliders(color))
    }

    /// Gets the zobrist hashing of the actual position.
    pub fn hash(self, enpassant: bool) -> (r: u64)
        requires
            history_ok(self@),
        ensures
            r == spec_pub_hash(self@, enpassant),
    {
        let piece_hash = self.hash;
        let state = self.actual_state();
        let ep_hash = if let Some(ep) = state.ep {
            if enpassant {
                zobrist_ep(state.turn, ep)
            } else {
                0
            }
        } else {
            0
        };
        let c0: u64 = if state.can_castle(State::WHITE_00) {
            zobrist_castle(state.turn, 0)
        } else {
            0
        };
        let c1: u64 = if state.can_castle(State::WHITE_000) {
            zobrist_castle(state.turn, 1)
        } else {
            0
        };
        let c2: u64 = if state.can_castle(State::BLACK_00) {
            zobrist_castle(state.turn, 2)
        } else {
            0
        };
        let c3: u64 = if state.can_castle(State::BLACK_000) {
            zobrist_castle(state.turn, 3)
        } else {
            0
        };
        let castle_hash: u64 = ((c0 ^ c1) ^ c2) ^ c3;
        piece_hash ^ ep_hash ^ castle_hash
    }

    /// Gets the mask where you can move.
    pub fn checkmask(&self) -> (r: u64)
        ensures
            r == self@.checkmask,
    {
        self.checkmask
    }

    /// Gets the mask with all pinned pieces.
    pub fn pinned(&self) -> (r: u64)
        ensures
            r == (self@.pin_d12 | self@.pin_hv),
    {
        self.pin_d12 | self.pin_hv
    }

    /// Check if the actual player is on check.
    pub fn in_check(&self) -> (r: bool)
        ensures
            r == (self@.checkmask != 0xffffffffffffffffu64),
    {
        self.checkmask != 0xffffffffffffffffu64
    }
}

/// Under disjointness, a board that holds a square is the one the scan
/// finds.
pub proof fn lemma_scan_unique(pieces: Seq<Seq<u64>>, c: usize, p: usize, s: usize)
    requires
        c < 2,
        p < 6,
        s < 64,
        pieces.len() == 2,
        pieces[0].len() == 6,
        pieces[1].len() == 6,
        disjoint_pieces(pieces),
        bb_bit(pieces[c as int][p as int], s as u64),
    ensures
        spec_scan_p(pieces, s) == Some((c, p)),
{
    let ss = s as u64;
    let bb = pieces[c as int][p as int];
    assert forall|a: int, b: int|
        0 <= a < 2 && 0 <= b < 6 && !(a == c && b == p) implies !bb_bit(
        #[trigger] pieces[a][b],
        ss,
    ) by {
        let ob = pieces[a][b];
        assert(ob & bb == 0);
        crate::bits::lemma_mask_edit();
        assert(bb_bit(bb, ss) && ob & bb == 0 && ss < 64 ==> !bb_bit(ob, ss));
    }
}

/// Zobrist fold of one board, computed: mirrors `zob_board`.
fn zob_board_exec(bb: u64, c: usize, p: usize, k: usize) -> (r: u64)
    requires
        c < 2,
        p < 6,
    ensures
        r == zob_board(bb, c, p, k as nat),
    decreases 64 - k,
{
    if k >= 64 {
        0
    } else {
        let rest = zob_board_exec(bb, c, p, k + 1);
        if (bb >> (k as u64)) & 1u64 == 1u64 {
            zobrist_piece(c, p, k) ^ rest
        } else {
            rest
        }
    }
}

impl Position {
    /// Recomputes the placement hash from scratch; a well-formed position
    /// maintains its incremental hash equal to this fold at all times.
    pub fn recompute_hash(&self) -> (r: u64)
        ensures
            r == zob_all(self@.pieces),
            wf_core(self@) ==> r == self@.hash,
    {
        self.zob_idx_exec(0)
    }

    /// Zobrist fold of the boards from index `i`: mirrors `zob_idx`.
    fn zob_idx_exec(&self, i: usize) -> (r: u64)
        ensures
            r == zob_idx(self@.pieces, i as nat),
        decreases 12 - i,
    {
        if i >= 12 {
            0
        } else {
            zob_board_exec(self.pieces_bb[i / 6][i % 6], i / 6, i % 6, 0) ^ self.zob_idx_exec(i + 1)
        }
    }
}

/// Every well-formed position keeps its boards pairwise disjoint: no
/// square ever carries two pieces.
pub proof fn lemma_boards_disjoint(m: PosModel)
    requires
        wf_core(m),
    ensures
        forall|c: int, p: int, c2: int, p2: int|
            0 <= c < 2 && 0 <= p < 6 && 0 <= c2 < 2 && 0 <= p2 < 6 && !(c == c2 && p == p2)
                ==> #[trigger] (m.pieces[c][p] & m.pieces[c2][p2]) == 0,
{
}

/// Every well-formed position holds exactly one king of each color.
pub proof fn lemma_one_king_each(m: PosModel)
    requires
        wf_core(m),
    ensures
        pcount(m.pieces[0][5]) == 1,
        pcount(m.pieces[1][5]) == 1,
{
}

/// In every well-formed position the incrementally maintained hash equals
/// the XOR fold of the Zobrist keys of all occupied squares.
pub proof fn lemma_hash_is_fold(m: PosModel)
    requires
        wf_core(m),
    ensures
        m.hash == zob_all(m.pieces),
{
}

} // verus!
