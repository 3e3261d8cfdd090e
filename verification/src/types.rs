//! Core value types: packed 16-bit moves, the bounded move list, colors,
//! piece kinds, compass directions and square helpers.

use vstd::prelude::*;

use crate::bits::{bb_bit, bit_scan64, poplsb64};
use vstd::string::StringSliceAdditionalSpecFns;

verus! {

/// Color indices for the two sides.
pub struct Color;

impl Color {
    pub const WHITE: usize = 0;

    pub const BLACK: usize = 1;
}

/// Piece-kind indices used throughout the board representation.
pub struct Piece;

impl Piece {
    pub const PAWN: usize = 0;

    pub const KNIGHT: usize = 1;

    pub const BISHOP: usize = 2;

    pub const ROOK: usize = 3;

    pub const QUEEN: usize = 4;

    pub const KING: usize = 5;
}

/// Piece kind encoded by a FEN letter, either case.
pub open spec fn spec_piece_from_char(ch: char) -> usize {
    if ch == 'p' || ch == 'P' {
        0
    } else if ch == 'n' || ch == 'N' {
        1
    } else if ch == 'b' || ch == 'B' {
        2
    } else if ch == 'r' || ch == 'R' {
        3
    } else if ch == 'q' || ch == 'Q' {
        4
    } else {
        5
    }
}

/// True when `ch` names a piece in FEN, either case.
pub open spec fn is_piece_char(ch: char) -> bool {
    ch == 'p' || ch == 'P' || ch == 'n' || ch == 'N' || ch == 'b' || ch == 'B' || ch == 'r' || ch
        == 'R' || ch == 'q' || ch == 'Q' || ch == 'k' || ch == 'K'
}

/// Lower-case FEN letter of a piece kind.
pub open spec fn spec_piece_to_char(p: usize) -> char {
    if p == 0 {
        'p'
    } else if p == 1 {
        'n'
    } else if p == 2 {
        'b'
    } else if p == 3 {
        'r'
    } else if p == 4 {
        'q'
    } else {
        'k'
    }
}

impl Piece {
    /// Decodes a FEN piece letter of either case.
    pub fn from_char(ch: char) -> (r: usize)
        requires
            is_piece_char(ch),
        ensures
            r == spec_piece_from_char(ch),
            r < 6,
    {
        match ch {
            'p' | 'P' => 0,
            'n' | 'N' => 1,
            'b' | 'B' => 2,
            'r' | 'R' => 3,
            'q' | 'Q' => 4,
            _ => 5,
        }
    }

    /// Lower-case FEN letter of a piece kind.
    pub fn to_char(p: usize) -> (r: char)
        requires
            p < 6,
        ensures
            r == spec_piece_to_char(p),
    {
        match p {
            0 => 'p',
            1 => 'n',
            2 => 'b',
            3 => 'r',
            4 => 'q',
            _ => 'k',
        }
    }
}

/// A move packed as `flag(4) | to(6) | from(6)`.
#[derive(Debug, Clone, Copy, PartialEq, Eq, Structural)]
pub struct Move(pub u16);

impl Move {
    // Move flags
    pub const QUIET: usize = 0;

    pub const CAPTURE: usize = 1;

    pub const DOUBLE_PUSH: usize = 2;

    pub const EN_PASSANT: usize = 3;

    pub const CASTLE_00: usize = 4;

    pub const CASTLE_000: usize = 5;

    pub const PR_N: usize = 6;

    pub const PR_B: usize = 7;

    pub const PR_R: usize = 8;

    pub const PR_Q: usize = 9;

    pub const PC_N: usize = 10;

    pub const PC_B: usize = 11;

    pub const PC_R: usize = 12;

    pub const PC_Q: usize = 13;

    /// The raw packed encoding, as a spec value.
    pub open spec fn spec_bits(self) -> u16 {
        self.0
    }

    /// Start square, as a spec value.
    pub open spec fn spec_from(self) -> usize {
        (self.0 & 0x3f) as usize
    }

    /// Destination square, as a spec value.
    pub open spec fn spec_to(self) -> usize {
        ((self.0 >> 6) & 0x3f) as usize
    }

    /// Flag, as a spec value.
    pub open spec fn spec_flag(self) -> usize {
        ((self.0 >> 12) & 0xf) as usize
    }

    /// The packed move with the given fields.
    pub open spec fn spec_new(from: usize, to: usize, flag: usize) -> Move {
        Move((from + to * 64 + flag * 4096) as u16)
    }

    /// True for ordinary captures, en passant and capturing promotions.
    pub open spec fn spec_is_capture(self) -> bool {
        self.spec_flag() == 1 || self.spec_flag() == 3 || (10 <= self.spec_flag() <= 13)
    }

    /// True for any promotion, capturing or not.
    pub open spec fn spec_is_promotion(self) -> bool {
        6 <= self.spec_flag() <= 13
    }

    /// True for either castling flag.
    pub open spec fn spec_is_castle(self) -> bool {
        self.spec_flag() == 4 || self.spec_flag() == 5
    }

    /// The all-zero move used to fill unused list slots.
    pub fn empty() -> (r: Move)
        ensures
            r == Move::spec_new(0, 0, 0),
    {
        Move(0)
    }

    /// Creates a new move.
    pub fn new(from: usize, to: usize, flag: usize) -> (r: Move)
        requires
            from < 64,
            to < 64,
            flag < 16,
        ensures
            r == Move::spec_new(from, to, flag),
            r.spec_from() == from,
            r.spec_to() == to,
            r.spec_flag() == flag,
    {
        let bits: u16 = (from as u16) | ((to as u16) << 6) | ((flag as u16) << 12);
        proof {
            assert(from < 64 && to < 64 && flag < 16 ==> ((from as u16) | ((to as u16) << 6) | (
            (flag as u16) << 12)) == (from + to * 64 + flag * 4096) as u16 && ((((from as u16) | ((
            to as u16) << 6) | ((flag as u16) << 12)) & 0x3f) as usize) == from && (((((
            from as u16) | ((to as u16) << 6) | ((flag as u16) << 12)) >> 6) & 0x3f) as usize) == to
                && (((((from as u16) | ((to as u16) << 6) | ((flag as u16) << 12)) >> 12)
                & 0xf) as usize) == flag) by (bit_vector);
        }
        Move(bits)
    }

    /// Gets the start square of the move.
    pub fn from(&self) -> (r: usize)
        ensures
            r == self.spec_from(),
            r < 64,
    {
        proof {
            lemma_move_fields(self.0);
        }
        (self.0 & 0x3f) as usize
    }

    /// Gets the destination square of the move.
    pub fn to(&self) -> (r: usize)
        ensures
            r == self.spec_to(),
            r < 64,
    {
        proof {
            lemma_move_fields(self.0);
        }
        ((self.0 >> 6) & 0x3f) as usize
    }

    /// Gets the flag of the move.
    pub fn flag(&self) -> (r: usize)
        ensures
            r == self.spec_flag(),
            r < 16,
    {
        proof {
            lemma_move_fields(self.0);
        }
        ((self.0 >> 12) & 0xf) as usize
    }

    /// Checks that the move is a capture.
    pub fn is_capture(&self) -> (r: bool)
        ensures
            r == self.spec_is_capture(),
    {
        let flag = self.flag();
        flag == Move::CAPTURE || flag == Move::EN_PASSANT || flag == Move::PC_B || flag
            == Move::PC_N || flag == Move::PC_R || flag == Move::PC_Q
    }
}

/// The unpacked fields of a move always fit their ranges.
pub proof fn lemma_move_fields(bits: u16)
    by (bit_vector)
    ensures
        (bits & 0x3f) < 64,
        ((bits >> 6) & 0x3f) < 64,
        ((bits >> 12) & 0xf) < 16,
{
}

/// Every bit of an intersection is a bit of both operands, and removing the
/// lowest set bit keeps a submask.
pub proof fn lemma_submask()
    by (bit_vector)
    ensures
        forall|x: u64, y: u64, j: u64| #[trigger] bb_bit(x & y, j) ==> bb_bit(x, j) && bb_bit(y, j),
        forall|x: u64, j: u64|
            x != 0 && #[trigger] bb_bit(x & ((x - 1) as u64), j) ==> bb_bit(x, j),
{
}

/// Moves emitted from one square into every set bit of a mask.
pub open spec fn emitted_ok(m: Move, from: usize, bb: u64, flag: usize) -> bool {
    m.spec_from() == from && m.spec_flag() == flag && m.spec_to() < 64 && bb_bit(
        bb,
        m.spec_to() as u64,
    )
}

/// One append exactly as the bounded list performs it: a full list drops
/// the move.
pub open spec fn ml_add(s: Seq<Move>, mv: Move) -> Seq<Move> {
    if s.len() < 218 {
        s.push(mv)
    } else {
        s
    }
}

/// Folds an emitter over the set bits of `bb` from square `k` upward, in
/// ascending square order: the order in which the move list's bulk
/// emitters pop a mask.
pub open spec fn scan_bits(
    s: Seq<Move>,
    bb: u64,
    k: nat,
    f: spec_fn(Seq<Move>, usize) -> Seq<Move>,
) -> Seq<Move>
    decreases 64 - k,
{
    if k >= 64 {
        s
    } else {
        let s1 = if bb_bit(bb, k as u64) {
            f(s, k as usize)
        } else {
            s
        };
        scan_bits(s1, bb, (k + 1) as nat, f)
    }
}

/// The emitter that appends one move with fixed start square and flag.
pub open spec fn add_emitter(from: usize, flag: usize) -> spec_fn(Seq<Move>, usize) -> Seq<Move> {
    (|acc: Seq<Move>, sq: usize| ml_add(acc, Move::spec_new(from, sq, flag)))
}

/// The list after one move per set bit of `bb`, lowest square first,
/// exactly as `extend` emits them.
pub open spec fn ml_extend(s: Seq<Move>, from: usize, bb: u64, flag: usize) -> Seq<Move> {
    scan_bits(s, bb, 0, add_emitter(from, flag))
}

/// The list after the four promotion moves of one source and destination,
/// knight to queen, exactly as `add_promotions` emits them.
pub open spec fn ml_promos(s: Seq<Move>, from: usize, to: usize, capture: bool) -> Seq<Move> {
    if capture {
        ml_add(
            ml_add(
                ml_add(ml_add(s, Move::spec_new(from, to, 10)), Move::spec_new(from, to, 11)),
                Move::spec_new(from, to, 12),
            ),
            Move::spec_new(from, to, 13),
        )
    } else {
        ml_add(
            ml_add(
                ml_add(ml_add(s, Move::spec_new(from, to, 6)), Move::spec_new(from, to, 7)),
                Move::spec_new(from, to, 8),
            ),
            Move::spec_new(from, to, 9),
        )
    }
}

/// The emitter that appends the four promotions of one destination.
pub open spec fn promo_emitter(from: usize, capture: bool) -> spec_fn(Seq<Move>, usize) -> Seq<
    Move,
> {
    (|acc: Seq<Move>, sq: usize| ml_promos(acc, from, sq, capture))
}

/// The list after the four promotions of every set bit of `bb`, lowest
/// square first, exactly as `extend_promotions` emits them.
pub open spec fn ml_extend_promos(s: Seq<Move>, from: usize, bb: u64, capture: bool) -> Seq<Move> {
    scan_bits(s, bb, 0, promo_emitter(from, capture))
}

/// A scan over a range without set bits changes nothing of the fold.
pub proof fn lemma_scan_bits_empty_range(
    s: Seq<Move>,
    bb: u64,
    k1: nat,
    k2: nat,
    f: spec_fn(Seq<Move>, usize) -> Seq<Move>,
)
    requires
        k1 <= k2 <= 64,
        forall|j: u64| k1 <= j < k2 ==> !bb_bit(bb, j),
    ensures
        scan_bits(s, bb, k1, f) == scan_bits(s, bb, k2, f),
    decreases k2 - k1,
{
    if k1 < k2 {
        lemma_scan_bits_empty_range(s, bb, (k1 + 1) as nat, k2, f);
    }
}

/// Two masks that agree from square `k` upward fold the same way there.
pub proof fn lemma_scan_bits_same_high(
    s: Seq<Move>,
    b1: u64,
    b2: u64,
    k: nat,
    f: spec_fn(Seq<Move>, usize) -> Seq<Move>,
)
    requires
        k <= 64,
        forall|j: u64| k <= j < 64 ==> bb_bit(b1, j) == bb_bit(b2, j),
    ensures
        scan_bits(s, b1, k, f) == scan_bits(s, b2, k, f),
    decreases 64 - k,
{
    if k < 64 {
        let s1 = if bb_bit(b1, k as u64) {
            f(s, k as usize)
        } else {
            s
        };
        lemma_scan_bits_same_high(s1, b1, b2, (k + 1) as nat, f);
    }
}

/// Folding the empty mask changes nothing.
pub proof fn lemma_scan_bits_zero(s: Seq<Move>, f: spec_fn(Seq<Move>, usize) -> Seq<Move>)
    ensures
        scan_bits(s, 0u64, 0, f) == s,
{
    assert(forall|j: u64| !bb_bit(0u64, j)) by (bit_vector);
    lemma_scan_bits_empty_range(s, 0u64, 0, 64, f);
}

/// Folding a mask equals applying the emitter to the lowest set square and
/// folding the mask with that square cleared: the step a pop-the-low-bit
/// loop takes.
pub proof fn lemma_scan_bits_step(
    s: Seq<Move>,
    bb: u64,
    sq: u64,
    f: spec_fn(Seq<Move>, usize) -> Seq<Move>,
)
    requires
        sq < 64,
        bb_bit(bb, sq),
        forall|j: u64| j < sq ==> !bb_bit(bb, j),
    ensures
        scan_bits(s, bb, 0, f) == scan_bits(f(s, sq as usize), (bb ^ (1u64 << sq)), 0, f),
{
    let bb2 = bb ^ (1u64 << sq);
    assert(forall|j: u64|
        j < 64 && j != sq && sq < 64 ==> bb_bit((bb ^ (1u64 << sq)), j) == bb_bit(bb, j))
        by (bit_vector);
    assert(sq < 64 && bb_bit(bb, sq) ==> !bb_bit((bb ^ (1u64 << sq)), sq)) by (bit_vector);
    assert(forall|j: u64| j >= 64 ==> !bb_bit(bb2, j) && !bb_bit(bb, j)) by (bit_vector);
    assert forall|j: u64| j < sq + 1 implies !bb_bit(bb2, j) by {
        if j != sq {
            assert(bb_bit(bb2, j) == bb_bit(bb, j));
        }
    }
    lemma_scan_bits_empty_range(s, bb, 0, sq as nat, f);
    assert(scan_bits(s, bb, sq as nat, f) == scan_bits(f(s, sq as usize), bb, (sq + 1) as nat, f));
    lemma_scan_bits_empty_range(f(s, sq as usize), bb2, 0, (sq + 1) as nat, f);
    lemma_scan_bits_same_high(f(s, sq as usize), bb, bb2, (sq + 1) as nat, f);
}

/// Clearing the lowest set bit is the same as toggling it.
pub proof fn lemma_poplsb_is_xor(x: u64)
    requires
        x != 0,
    ensures
        (x & ((x - 1) as u64)) == (x ^ (1u64 << (
        vstd::std_specs::bits::u64_trailing_zeros(x) as u64))),
{
    broadcast use vstd::std_specs::bits::axiom_u64_trailing_zeros;

    let s = vstd::std_specs::bits::u64_trailing_zeros(x) as u64;
    assert(x != 0 && s < 64 && (x >> s) & 1u64 == 1u64 && x << ((64 - s) as u64) == 0 ==> (x & ((x
        - 1) as u64)) == (x ^ (1u64 << s))) by (bit_vector);
}

/// Number of moves in a list counted as captures by the capture tally:
/// ordinary captures and capturing promotions, but not en passant.
pub open spec fn n_plain_captures(s: Seq<Move>) -> nat
    decreases s.len(),
{
    if s.len() == 0 {
        0
    } else {
        n_plain_captures(s.drop_last()) + if s.last().spec_flag() == 1 || (10
            <= s.last().spec_flag() <= 13) {
            1nat
        } else {
            0nat
        }
    }
}

/// Number of en-passant moves in a list.
pub open spec fn n_enpassants(s: Seq<Move>) -> nat
    decreases s.len(),
{
    if s.len() == 0 {
        0
    } else {
        n_enpassants(s.drop_last()) + if s.last().spec_flag() == 3 {
            1nat
        } else {
            0nat
        }
    }
}

/// Number of castling moves in a list.
pub open spec fn n_castles(s: Seq<Move>) -> nat
    decreases s.len(),
{
    if s.len() == 0 {
        0
    } else {
        n_castles(s.drop_last()) + if s.last().spec_is_castle() {
            1nat
        } else {
            0nat
        }
    }
}

/// Number of promotion moves in a list.
pub open spec fn n_promotions(s: Seq<Move>) -> nat
    decreases s.len(),
{
    if s.len() == 0 {
        0
    } else {
        n_promotions(s.drop_last()) + if s.last().spec_is_promotion() {
            1nat
        } else {
            0nat
        }
    }
}

/// The moves of `s` whose start square is `from`, in order.
pub open spec fn keep_from(s: Seq<Move>, from: usize) -> Seq<Move>
    decreases s.len(),
{
    if s.len() == 0 {
        s
    } else if s.last().spec_from() == from {
        keep_from(s.drop_last(), from).push(s.last())
    } else {
        keep_from(s.drop_last(), from)
    }
}

/// The moves of `s` whose destination square is `to`, in order.
pub open spec fn keep_to(s: Seq<Move>, to: usize) -> Seq<Move>
    decreases s.len(),
{
    if s.len() == 0 {
        s
    } else if s.last().spec_to() == to {
        keep_to(s.drop_last(), to).push(s.last())
    } else {
        keep_to(s.drop_last(), to)
    }
}

/// The moves of `s` whose start square lies in the mask, in order.
pub open spec fn keep_from_bb(s: Seq<Move>, bb: u64) -> Seq<Move>
    decreases s.len(),
{
    if s.len() == 0 {
        s
    } else if bb_bit(bb, s.last().spec_from() as u64) {
        keep_from_bb(s.drop_last(), bb).push(s.last())
    } else {
        keep_from_bb(s.drop_last(), bb)
    }
}

/// The moves of `s` whose destination square lies in the mask, in order.
pub open spec fn keep_to_bb(s: Seq<Move>, bb: u64) -> Seq<Move>
    decreases s.len(),
{
    if s.len() == 0 {
        s
    } else if bb_bit(bb, s.last().spec_to() as u64) {
        keep_to_bb(s.drop_last(), bb).push(s.last())
    } else {
        keep_to_bb(s.drop_last(), bb)
    }
}

/// A fixed-capacity list of moves. At most 218 legal moves exist in any
/// chess position, so the capacity never limits legal move generation.
#[derive(Debug, Clone, Copy)]
pub struct MoveList {
    pub array: [Move; 218],
    pub len: usize,
}

impl View for MoveList {
    type V = Seq<Move>;

    open spec fn view(&self) -> Seq<Move> {
        self.array@.take(self.len as int)
    }
}

impl MoveList {
    /// The stored length never exceeds the capacity.
    pub open spec fn wf(self) -> bool {
        self.len <= 218
    }

    /// Creates a new empty list.
    pub fn new() -> (r: MoveList)
        ensures
            r.wf(),
            r@ == Seq::<Move>::empty(),
    {
        let r = MoveList { array: [Move(0); 218], len: 0 };
        proof {
            assert(r@ =~= Seq::<Move>::empty());
        }
        r
    }

    /// Appends one move built from its fields; a full list stays unchanged.
    pub fn add(&mut self, from: usize, to: usize, flag: usize)
        requires
            old(self).wf(),
            from < 64,
            to < 64,
            flag < 16,
        ensures
            final(self).wf(),
            final(self)@ == ml_add(old(self)@, Move::spec_new(from, to, flag)),
            old(self)@.len() < 218 ==> final(self)@ == old(self)@.push(
                Move::spec_new(from, to, flag),
            ) && final(self)@.last().spec_from() == from && final(self)@.last().spec_to() == to
                && final(self)@.last().spec_flag() == flag,
            old(self)@.len() == 218 ==> final(self)@ == old(self)@,
    {
        let mv = Move::new(from, to, flag);
        self.add_raw(mv);
    }

    /// Appends one move; a full list stays unchanged.
    pub fn add_raw(&mut self, mv: Move)
        requires
            old(self).wf(),
        ensures
            final(self).wf(),
            final(self)@ == ml_add(old(self)@, mv),
            old(self)@.len() < 218 ==> final(self)@ == old(self)@.push(mv),
            old(self)@.len() == 218 ==> final(self)@ == old(self)@,
    {
        if self.len < 218 {
            self.array[self.len] = mv;
            self.len = self.len + 1;
            proof {
                assert(self@ =~= old(self)@.push(mv));
            }
        }
    }

    /// Emits one move per set bit of `to`, in ascending square order.
    pub fn extend(&mut self, from: usize, to: u64, flag: usize)
        requires
            old(self).wf(),
            from < 64,
            flag < 16,
        ensures
            final(self).wf(),
            final(self)@ == ml_extend(old(self)@, from, to, flag),
            old(self)@.len() <= final(self)@.len(),
            forall|i: int| 0 <= i < old(self)@.len() ==> final(self)@[i] == old(self)@[i],
            forall|i: int|
                old(self)@.len() <= i < final(self)@.len() ==> emitted_ok(
                    final(self)@[i],
                    from,
                    to,
                    flag,
                ),
    {
        let mut rest: u64 = to;
        proof {
            lemma_submask();
        }
        while rest != 0
            invariant
                self.wf(),
                from < 64,
                flag < 16,
                ml_extend(old(self)@, from, to, flag) == ml_extend(self@, from, rest, flag),
                old(self)@.len() <= self@.len(),
                forall|i: int| 0 <= i < old(self)@.len() ==> self@[i] == old(self)@[i],
                forall|i: int|
                    old(self)@.len() <= i < self@.len() ==> emitted_ok(self@[i], from, to, flag),
                forall|j: u64| bb_bit(rest, j) ==> bb_bit(to, j),
            decreases rest,
        {
            let ghost before = self@;
            let s = bit_scan64(rest);
            self.add(from, s, flag);
            let prev = rest;
            rest = poplsb64(rest);
            proof {
                lemma_submask();
                assert(forall|j: u64| bb_bit(rest, j) ==> bb_bit(prev, j));
                lemma_poplsb_is_xor(prev);
                lemma_scan_bits_step(before, prev, s as u64, add_emitter(from, flag));
                assert(add_emitter(from, flag)(before, s) == ml_add(
                    before,
                    Move::spec_new(from, s, flag),
                ));
                assert(ml_extend(before, from, prev, flag) == ml_extend(self@, from, rest, flag));
            }
        }
        proof {
            lemma_scan_bits_zero(self@, add_emitter(from, flag));
        }
    }

    /// Emits the four promotion moves for one source and destination.
    pub fn add_promotions(&mut self, from: usize, to: usize, capture: bool)
        requires
            old(self).wf(),
            from < 64,
            to < 64,
        ensures
            final(self).wf(),
            final(self)@ == ml_promos(old(self)@, from, to, capture),
            old(self)@.len() <= final(self)@.len(),
            forall|i: int| 0 <= i < old(self)@.len() ==> final(self)@[i] == old(self)@[i],
            forall|i: int|
                old(self)@.len() <= i < final(self)@.len() ==> final(self)@[i].spec_from() == from
                    && final(self)@[i].spec_to() == to && final(self)@[i].spec_is_promotion() && (
                final(self)@[i].spec_is_capture() == capture),
    {
        if capture {
            self.add(from, to, Move::PC_N);
            self.add(from, to, Move::PC_B);
            self.add(from, to, Move::PC_R);
            self.add(from, to, Move::PC_Q);
        } else {
            self.add(from, to, Move::PR_N);
            self.add(from, to, Move::PR_B);
            self.add(from, to, Move::PR_R);
            self.add(from, to, Move::PR_Q);
        }
    }

    /// Emits the four promotions for every set bit of the destination mask.
    pub fn extend_promotions(&mut self, from: usize, to: u64, capture: bool)
        requires
            old(self).wf(),
            from < 64,
        ensures
            final(self).wf(),
            final(self)@ == ml_extend_promos(old(self)@, from, to, capture),
            old(self)@.len() <= final(self)@.len(),
            forall|i: int| 0 <= i < old(self)@.len() ==> final(self)@[i] == old(self)@[i],
            forall|i: int|
                old(self)@.len() <= i < final(self)@.len() ==> final(self)@[i].spec_from() == from
                    && final(self)@[i].spec_is_promotion(),
    {
        let mut rest: u64 = to;
        proof {
            lemma_submask();
        }
        while rest != 0
            invariant
                self.wf(),
                from < 64,
                ml_extend_promos(old(self)@, from, to, capture) == ml_extend_promos(
                    self@,
                    from,
                    rest,
                    capture,
                ),
                old(self)@.len() <= self@.len(),
                forall|i: int| 0 <= i < old(self)@.len() ==> self@[i] == old(self)@[i],
                forall|i: int|
                    old(self)@.len() <= i < self@.len() ==> self@[i].spec_from() == from
                        && self@[i].spec_is_promotion(),
            decreases rest,
        {
            let ghost before = self@;
            let s = bit_scan64(rest);
            self.add_promotions(from, s, capture);
            let prev = rest;
            rest = poplsb64(rest);
            proof {
                lemma_poplsb_is_xor(prev);
                lemma_scan_bits_step(before, prev, s as u64, promo_emitter(from, capture));
                assert(promo_emitter(from, capture)(before, s) == ml_promos(
                    before,
                    from,
                    s,
                    capture,
                ));
                assert(ml_extend_promos(before, from, prev, capture) == ml_extend_promos(
                    self@,
                    from,
                    rest,
                    capture,
                ));
            }
        }
        proof {
            lemma_scan_bits_zero(self@, promo_emitter(from, capture));
        }
    }

    /// Gets the move at an index.
    pub fn get(self, i: usize) -> (r: Move)
        requires
            self.wf(),
            i < self@.len(),
        ensures
            r == self@[i as int],
    {
        self.array[i]
    }

    /// Gets the amount of moves.
    pub fn count(self) -> (r: usize)
        requires
            self.wf(),
        ensures
            r == self@.len(),
    {
        self.len
    }

    /// Counts all the promotions.
    pub fn count_promotions(&self) -> (r: usize)
        requires
            self.wf(),
        ensures
            r == n_promotions(self@),
    {
        let mut count: usize = 0;
        let mut i: usize = 0;
        while i < self.len
            invariant
                self.wf(),
                i <= self.len,
                count == n_promotions(self@.take(i as int)),
                count <= i,
            decreases self.len - i,
        {
            let m = self.array[i];
            if m.flag() >= Move::PR_N && m.flag() <= Move::PC_Q {
                count = count + 1;
            }
            proof {
                assert(self@.take(i + 1).drop_last() =~= self@.take(i as int));
                assert(self@.take(i + 1).last() == self@[i as int]);
            }
            i = i + 1;
        }
        proof {
            assert(self@.take(self.len as int) =~= self@);
        }
        count
    }

    /// Counts the ordinary captures and capturing promotions; en passant
    /// is tallied separately by `count_enpassants`.
    pub fn count_captures(&self) -> (r: usize)
        requires
            self.wf(),
        ensures
            r == n_plain_captures(self@),
    {
        let mut count: usize = 0;
        let mut i: usize = 0;
        while i < self.len
            invariant
                self.wf(),
                i <= self.len,
                count == n_plain_captures(self@.take(i as int)),
                count <= i,
            decreases self.len - i,
        {
            let m = self.array[i];
            if m.flag() == Move::CAPTURE || (m.flag() >= Move::PC_N && m.flag() <= Move::PC_Q) {
                count = count + 1;
            }
            proof {
                assert(self@.take(i + 1).drop_last() =~= self@.take(i as int));
                assert(self@.take(i + 1).last() == self@[i as int]);
            }
            i = i + 1;
        }
        proof {
            assert(self@.take(self.len as int) =~= self@);
        }
        count
    }

    /// Counts all the en passants.
    pub fn count_enpassants(&self) -> (r: usize)
        requires
            self.wf(),
        ensures
            r == n_enpassants(self@),
    {
        let mut count: usize = 0;
        let mut i: usize = 0;
        while i < self.len
            invariant
                self.wf(),
                i <= self.len,
                count == n_enpassants(self@.take(i as int)),
                count <= i,
            decreases self.len - i,
        {
            let m = self.array[i];
            if m.flag() == Move::EN_PASSANT {
                count = count + 1;
            }
            proof {
                assert(self@.take(i + 1).drop_last() =~= self@.take(i as int));
                assert(self@.take(i + 1).last() == self@[i as int]);
            }
            i = i + 1;
        }
        proof {
            assert(self@.take(self.len as int) =~= self@);
        }
        count
    }

    /// Counts all the castles.
    pub fn count_castles(&self) -> (r: usize)
        requires
            self.wf(),
        ensures
            r == n_castles(self@),
    {
        let mut count: usize = 0;
        let mut i: usize = 0;
        while i < self.len
            invariant
                self.wf(),
                i <= self.len,
                count == n_castles(self@.take(i as int)),
                count <= i,
            decreases self.len - i,
        {
            let m = self.array[i];
            if m.flag() == Move::CASTLE_00 || m.flag() == Move::CASTLE_000 {
                count = count + 1;
            }
            proof {
                assert(self@.take(i + 1).drop_last() =~= self@.take(i as int));
                assert(self@.take(i + 1).last() == self@[i as int]);
            }
            i = i + 1;
        }
        proof {
            assert(self@.take(self.len as int) =~= self@);
        }
        count
    }

    /// The same list with the move order reversed.
    pub fn rev(self) -> (r: MoveList)
        requires
            self.wf(),
        ensures
            r.wf(),
            r@.len() == self@.len(),
            forall|i: int| 0 <= i < self@.len() ==> r@[i] == self@[self@.len() - 1 - i],
    {
        let mut out = MoveList::new();
        let mut i: usize = self.len;
        while i > 0
            invariant
                self.wf(),
                out.wf(),
                i <= self.len,
                out@.len() == self.len - i,
                forall|k: int| 0 <= k < out@.len() ==> out@[k] == self@[self@.len() - 1 - k],
            decreases i,
        {
            i = i - 1;
            out.add_raw(self.array[i]);
        }
        out
    }

    /// Keeps only the moves that start on a square, preserving order.
    pub fn filter_from(&mut self, from: usize)
        requires
            old(self).wf(),
        ensures
            final(self).wf(),
            final(self)@ == keep_from(old(self)@, from),
    {
        let mut i: usize = 0;
        let mut j: usize = 0;
        let n = self.len;
        while i < n
            invariant
                old(self).wf(),
                old(self).len == n,
                self.wf(),
                self.len == n,
                j <= i <= n,
                self@.take(j as int) == keep_from(old(self)@.take(i as int), from),
                forall|k: int| i <= k < n ==> self@[k] == old(self)@[k],
            decreases n - i,
        {
            let m = self.array[i];
            proof {
                assert(old(self)@.take(i + 1).drop_last() =~= old(self)@.take(i as int));
                assert(old(self)@.take(i + 1).last() == old(self)@[i as int]);
            }
            if m.from() == from {
                self.array[j] = m;
                j = j + 1;
                proof {
                    assert(self@.take(j as int) =~= self@.take(j - 1).push(m));
                }
            }
            i = i + 1;
        }
        proof {
            assert(old(self)@.take(n as int) =~= old(self)@);
        }
        self.len = j;
    }

    /// Keeps only the moves that land on a square, preserving order.
    pub fn filter_to(&mut self, to: usize)
        requires
            old(self).wf(),
        ensures
            final(self).wf(),
            final(self)@ == keep_to(old(self)@, to),
    {
        let mut i: usize = 0;
        let mut j: usize = 0;
        let n = self.len;
        while i < n
            invariant
                old(self).wf(),
                old(self).len == n,
                self.wf(),
                self.len == n,
                j <= i <= n,
                self@.take(j as int) == keep_to(old(self)@.take(i as int), to),
                forall|k: int| i <= k < n ==> self@[k] == old(self)@[k],
            decreases n - i,
        {
            let m = self.array[i];
            proof {
                assert(old(self)@.take(i + 1).drop_last() =~= old(self)@.take(i as int));
                assert(old(self)@.take(i + 1).last() == old(self)@[i as int]);
            }
            if m.to() == to {
                self.array[j] = m;
                j = j + 1;
                proof {
                    assert(self@.take(j as int) =~= self@.take(j - 1).push(m));
                }
            }
            i = i + 1;
        }
        proof {
            assert(old(self)@.take(n as int) =~= old(self)@);
        }
        self.len = j;
    }

    /// Keeps only the moves that start inside a mask, preserving order.
    pub fn filter_from_bb(&mut self, from: u64)
        requires
            old(self).wf(),
        ensures
            final(self).wf(),
            final(self)@ == keep_from_bb(old(self)@, from),
    {
        let mut i: usize = 0;
        let mut j: usize = 0;
        let n = self.len;
        while i < n
            invariant
                old(self).wf(),
                old(self).len == n,
                self.wf(),
                self.len == n,
                j <= i <= n,
                self@.take(j as int) == keep_from_bb(old(self)@.take(i as int), from),
                forall|k: int| i <= k < n ==> self@[k] == old(self)@[k],
            decreases n - i,
        {
            let m = self.array[i];
            proof {
                assert(old(self)@.take(i + 1).drop_last() =~= old(self)@.take(i as int));
                assert(old(self)@.take(i + 1).last() == old(self)@[i as int]);
            }
            if (1u64 << (m.from() as u64)) & from != 0 {
                proof {
                    lemma_shift_bit(from, m.spec_from() as u64);
                }
                self.array[j] = m;
                j = j + 1;
                proof {
                    assert(self@.take(j as int) =~= self@.take(j - 1).push(m));
                }
            } else {
                proof {
                    lemma_shift_bit(from, m.spec_from() as u64);
                }
            }
            i = i + 1;
        }
        proof {
            assert(old(self)@.take(n as int) =~= old(self)@);
        }
        self.len = j;
    }

    /// Keeps only the moves that land inside a mask, preserving order.
    pub fn filter_to_bb(&mut self, to: u64)
        requires
            old(self).wf(),
        ensures
            final(self).wf(),
            final(self)@ == keep_to_bb(old(self)@, to),
    {
        let mut i: usize = 0;
        let mut j: usize = 0;
        let n = self.len;
        while i < n
            invariant
                old(self).wf(),
                old(self).len == n,
                self.wf(),
                self.len == n,
                j <= i <= n,
                self@.take(j as int) == keep_to_bb(old(self)@.take(i as int), to),
                forall|k: int| i <= k < n ==> self@[k] == old(self)@[k],
            decreases n - i,
        {
            let m = self.array[i];
            proof {
                assert(old(self)@.take(i + 1).drop_last() =~= old(self)@.take(i as int));
                assert(old(self)@.take(i + 1).last() == old(self)@[i as int]);
            }
            if (1u64 << (m.to() as u64)) & to != 0 {
                proof {
                    lemma_shift_bit(to, m.spec_to() as u64);
                }
                self.array[j] = m;
                j = j + 1;
                proof {
                    assert(self@.take(j as int) =~= self@.take(j - 1).push(m));
                }
            } else {
                proof {
                    lemma_shift_bit(to, m.spec_to() as u64);
                }
            }
            i = i + 1;
        }
        proof {
            assert(old(self)@.take(n as int) =~= old(self)@);
        }
        self.len = j;
    }
}

/// A singleton mask intersects `x` exactly when that bit of `x` is set.
pub proof fn lemma_shift_bit(x: u64, s: u64)
    requires
        s < 64,
    ensures
        ((1u64 << s) & x != 0) == bb_bit(x, s),
{
    assert(s < 64 ==> (((1u64 << s) & x != 0) == ((x >> s) & 1u64 == 1u64))) by (bit_vector);
}

/// A cursor over a move list, yielding moves in emission order.
pub struct MoveListIterator {
    pub list: MoveList,
    pub index: usize,
}

impl MoveListIterator {
    /// The cursor stays inside the list.
    pub open spec fn wf(self) -> bool {
        self.list.wf() && self.index <= self.list@.len()
    }

    /// The moves not yet yielded.
    pub open spec fn remaining(self) -> Seq<Move> {
        self.list@.skip(self.index as int)
    }

    /// Starts a cursor at the first move of a list.
    pub fn new(list: MoveList) -> (r: MoveListIterator)
        requires
            list.wf(),
        ensures
            r.wf(),
            r.remaining() == list@,
    {
        let r = MoveListIterator { list, index: 0 };
        proof {
            assert(r.remaining() =~= list@);
        }
        r
    }

    /// Yields the next move, or nothing when the list is exhausted.
    pub fn next(&mut self) -> (r: Option<Move>)
        requires
            old(self).wf(),
        ensures
            final(self).wf(),
            old(self).remaining().len() == 0 ==> r is None && *final(self) == *old(self),
            old(self).remaining().len() > 0 ==> r == Some(old(self).remaining()[0]) && final(
                self).remaining() == old(self).remaining().skip(1),
    {
        if self.index == self.list.count() {
            return None;
        }
        let mv = self.list.get(self.index);
        self.index = self.index + 1;
        proof {
            assert(self.remaining() =~= old(self).remaining().skip(1));
        }
        Some(mv)
    }
}

/// A compass direction from White's point of view.
#[derive(Debug, Clone, Copy, PartialEq, Eq, Structural)]
pub enum Direction {
    North,
    NorthEast,
    East,
    SouthEast,
    South,
    SouthWest,
    West,
    NorthWest,
    North2,
    South2,
}

/// The direction pointing the opposite way.
pub open spec fn spec_opposite(d: Direction) -> Direction {
    match d {
        Direction::North => Direction::South,
        Direction::NorthEast => Direction::SouthWest,
        Direction::East => Direction::West,
        Direction::SouthEast => Direction::NorthWest,
        Direction::South => Direction::North,
        Direction::SouthWest => Direction::NorthEast,
        Direction::West => Direction::East,
        Direction::NorthWest => Direction::SouthEast,
        Direction::North2 => Direction::South2,
        Direction::South2 => Direction::North2,
    }
}

/// The direction as seen by a color: Black sees the board upside down.
pub open spec fn spec_relative(d: Direction, color: usize) -> Direction {
    if color == 1 {
        spec_opposite(d)
    } else {
        d
    }
}

impl Direction {
    /// The direction pointing the opposite way.
    pub fn opposite(self) -> (r: Direction)
        ensures
            r == spec_opposite(self),
    {
        match self {
            Direction::North => Direction::South,
            Direction::NorthEast => Direction::SouthWest,
            Direction::East => Direction::West,
            Direction::SouthEast => Direction::NorthWest,
            Direction::South => Direction::North,
            Direction::SouthWest => Direction::NorthEast,
            Direction::West => Direction::East,
            Direction::NorthWest => Direction::SouthEast,
            Direction::North2 => Direction::South2,
            Direction::South2 => Direction::North2,
        }
    }

    /// Gets the relative direction in the look of a specific color.
    pub fn relative(self, color: usize) -> (r: Direction)
        ensures
            r == spec_relative(self, color),
    {
        if color == Color::BLACK {
            self.opposite()
        } else {
            self
        }
    }
}

/// Represents helpers for bitboards.
pub struct BitBoard;

impl BitBoard {
    pub const FILE_A: u64 = 0x101010101010101;

    pub const FILE_B: u64 = 0x202020202020202;

    pub const FILE_C: u64 = 0x404040404040404;

    pub const FILE_D: u64 = 0x808080808080808;

    pub const FILE_E: u64 = 0x1010101010101010;

    pub const FILE_F: u64 = 0x2020202020202020;

    pub const FILE_G: u64 = 0x4040404040404040;

    pub const FILE_H: u64 = 0x8080808080808080;

    pub const RANK_1: u64 = 0xff;

    pub const RANK_2: u64 = 0xff00;

    pub const RANK_3: u64 = 0xff0000;

    pub const RANK_4: u64 = 0xff000000;

    pub const RANK_5: u64 = 0xff00000000;

    pub const RANK_6: u64 = 0xff0000000000;

    pub const RANK_7: u64 = 0xff000000000000;

    pub const RANK_8: u64 = 0xff00000000000000;
}

/// One step of every square of a mask in a direction; squares that would
/// leave the board are dropped by the file masks.
pub open spec fn spec_shift(bb: u64, dir: Direction) -> u64 {
    match dir {
        Direction::North => bb << 8,
        Direction::South => bb >> 8,
        Direction::North2 => bb << 16,
        Direction::South2 => bb >> 16,
        Direction::East => (bb & !0x8080808080808080u64) << 1,
        Direction::West => (bb & !0x101010101010101u64) >> 1,
        Direction::NorthEast => (bb & !0x8080808080808080u64) << 9,
        Direction::NorthWest => (bb & !0x101010101010101u64) << 7,
        Direction::SouthEast => (bb & !0x8080808080808080u64) >> 7,
        Direction::SouthWest => (bb & !0x101010101010101u64) >> 9,
    }
}

/// The rank mask numbered from a color's own side: rank 1 for Black is the
/// eighth rank of the board.
pub open spec fn spec_relative_rank(rank: usize, color: usize) -> u64 {
    if color == 0 {
        0xffu64 << (((rank - 1) * 8) as u64)
    } else {
        0xffu64 << (((8 - rank) * 8) as u64)
    }
}

impl BitBoard {
    /// Shifts a bitboard into a direction.
    pub fn shift_dir(bb: u64, dir: Direction) -> (r: u64)
        ensures
            r == spec_shift(bb, dir),
    {
        match dir {
            Direction::North => bb << 8,
            Direction::South => bb >> 8,
            Direction::North2 => bb << 16,
            Direction::South2 => bb >> 16,
            Direction::East => (bb & !Self::FILE_H) << 1,
            Direction::West => (bb & !Self::FILE_A) >> 1,
            Direction::NorthEast => (bb & !Self::FILE_H) << 9,
            Direction::NorthWest => (bb & !Self::FILE_A) << 7,
            Direction::SouthEast => (bb & !Self::FILE_H) >> 7,
            Direction::SouthWest => (bb & !Self::FILE_A) >> 9,
        }
    }

    /// Gets the relative rank in the look of a specific color.
    pub fn relative_rank(rank: usize, color: usize) -> (r: u64)
        requires
            1 <= rank <= 8,
        ensures
            r == spec_relative_rank(rank, color),
    {
        let num: usize = if color == Color::WHITE {
            rank - 1
        } else {
            8 - rank
        };
        Self::RANK_1 << ((num * 8) as u64)
    }
}

/// The Carry-Rippler successor of a submask of `set`: the subtraction
/// wraps below zero, and the intersection keeps only bits of `set`.
pub open spec fn spec_rippler_next(subset: u64, set: u64) -> u64 {
    (if subset - set < 0 {
        (subset - set + 0x10000000000000000) as u64
    } else {
        (subset - set) as u64
    }) & set
}

/// Enumerates the submasks of a mask in Carry-Rippler order, starting from
/// the empty mask; every yielded value is a submask of the starting mask.
pub struct BitBoardSubsetIter {
    pub set: u64,
    pub subset: u64,
    pub finished: bool,
}

impl BitBoardSubsetIter {
    /// The cursor always holds a submask of its mask.
    pub open spec fn wf(self) -> bool {
        self.subset & self.set == self.subset
    }

    /// Starts the enumeration of the submasks of `set`.
    pub fn new(set: u64) -> (r: BitBoardSubsetIter)
        ensures
            r.wf(),
            r.set == set,
            !r.finished,
    {
        proof {
            assert(0u64 & set == 0u64) by (bit_vector);
        }
        BitBoardSubsetIter { set, subset: 0, finished: false }
    }

    /// Yields the next submask, or nothing once every submask was seen.
    pub fn next(&mut self) -> (r: Option<u64>)
        requires
            old(self).wf(),
        ensures
            final(self).wf(),
            final(self).set == old(self).set,
            old(self).finished ==> r is None && *final(self) == *old(self),
            !old(self).finished ==> r == Some(old(self).subset) && old(self).subset & old(
                self).set == old(self).subset && final(self).subset == spec_rippler_next(
                old(self).subset,
                old(self).set,
            ) && final(self).finished == (final(self).subset == 0),
    {
        if self.finished {
            return None;
        }
        let current = self.subset;
        let w = self.subset.wrapping_sub(self.set);
        self.subset = w & self.set;
        self.finished = self.subset == 0;
        proof {
            let y = self.set;
            assert((w & y) & y == (w & y)) by (bit_vector);
        }
        Some(current)
    }
}

/// Square helpers: squares are numbered 0 (a1) through 63 (h8).
pub struct Square;

impl Square {
    pub const A1: usize = 0;

    pub const B1: usize = 1;

    pub const C1: usize = 2;

    pub const D1: usize = 3;

    pub const E1: usize = 4;

    pub const F1: usize = 5;

    pub const G1: usize = 6;

    pub const H1: usize = 7;

    pub const A8: usize = 56;

    pub const B8: usize = 57;

    pub const C8: usize = 58;

    pub const D8: usize = 59;

    pub const E8: usize = 60;

    pub const F8: usize = 61;

    pub const G8: usize = 62;

    pub const H8: usize = 63;
}

/// True when the byte names a board file, either case.
pub open spec fn is_file_byte(b: u8) -> bool {
    (97 <= b <= 104) || (65 <= b <= 72)
}

/// True when the byte names a board rank.
pub open spec fn is_rank_byte(b: u8) -> bool {
    49 <= b <= 56
}

/// The file index 0..8 named by a file byte.
pub open spec fn file_of_byte(b: u8) -> usize {
    if 97 <= b {
        (b - 97) as usize
    } else {
        (b - 65) as usize
    }
}

/// The square named by a file byte and a rank byte.
pub open spec fn spec_square_of(fb: u8, rb: u8) -> usize {
    ((rb - 49) * 8 + file_of_byte(fb)) as usize
}

impl Square {
    /// Gets a square from algebraic notation such as `e4`.
    pub fn from_str(sq: &str) -> (r: usize)
        requires
            sq.spec_bytes().len() >= 2,
            is_file_byte(sq.spec_bytes()[0]),
            is_rank_byte(sq.spec_bytes()[1]),
        ensures
            r == spec_square_of(sq.spec_bytes()[0], sq.spec_bytes()[1]),
            r < 64,
    {
        let b = sq.as_bytes();
        let fb = b[0];
        let rb = b[1];
        let file: usize = if fb >= 97 {
            (fb - 97) as usize
        } else {
            (fb - 65) as usize
        };
        let rank: usize = (rb - 49) as usize;
        rank * 8 + file
    }

    /// Converts the square into algebraic notation such as `e4`.
    pub fn to_string(sq: usize) -> (r: String)
        requires
            sq < 64,
        ensures
            r@.len() == 2,
            r@[0] == ((97 + (sq % 8)) as u8) as char,
            r@[1] == ((49 + (sq / 8)) as u8) as char,
    {
        let mut v: Vec<u8> = Vec::new();
        v.push((97 + (sq % 8)) as u8);
        v.push((49 + (sq / 8)) as u8);
        crate::text::ascii_to_string(v)
    }
}

impl Move {
    /// The move in coordinate notation: start square, destination square,
    /// and the promotion letter when the move promotes.
    pub fn uci(&self) -> (r: String)
        ensures
            r@.len() == (if self.spec_is_promotion() {
                5int
            } else {
                4int
            }),
            r@[0] == ((97 + (self.spec_from() % 8)) as u8) as char,
            r@[1] == ((49 + (self.spec_from() / 8)) as u8) as char,
            r@[2] == ((97 + (self.spec_to() % 8)) as u8) as char,
            r@[3] == ((49 + (self.spec_to() / 8)) as u8) as char,
            self.spec_is_promotion() ==> r@[4] == (spec_promo_letter(self.spec_flag()) as char),
    {
        let f = self.from();
        let t = self.to();
        let mut v: Vec<u8> = Vec::new();
        v.push(97 + ((f % 8) as u8));
        v.push(49 + ((f / 8) as u8));
        v.push(97 + ((t % 8) as u8));
        v.push(49 + ((t / 8) as u8));
        let fl = self.flag();
        if fl >= Move::PR_N && fl <= Move::PC_Q {
            if fl == Move::PR_N || fl == Move::PC_N {
                v.push(110);
            } else if fl == Move::PR_B || fl == Move::PC_B {
                v.push(98);
            } else if fl == Move::PR_R || fl == Move::PC_R {
                v.push(114);
            } else {
                v.push(113);
            }
        }
        crate::text::ascii_to_string(v)
    }
}

/// The letter a promotion flag appends to coordinate notation.
pub open spec fn spec_promo_letter(fl: usize) -> u8 {
    if fl == 6 || fl == 10 {
        110
    } else if fl == 7 || fl == 11 {
        98
    } else if fl == 8 || fl == 12 {
        114
    } else {
        113
    }
}

} // verus!
