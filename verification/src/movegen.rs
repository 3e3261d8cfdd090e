//! The legal move generator: emits exactly the legal moves of the side to
//! move, filtered through the checkmask, the pin masks, the danger map and
//! the en-passant discovered-check test. The emitted list is pinned down
//! exactly by `spec_legal`, a stage-by-stage mirror of the generator.

use vstd::prelude::*;

use crate::analysis::{spec_check_count, wf};
use crate::bits::{bb_bit, bit_scan64, poplsb64};
use crate::lookup::{
    between, hv_moves, d12_moves, king_mask, knight_mask, pawn_attacks, spec_between,
    spec_d12_moves, spec_hv_moves, spec_king_mask, spec_knight_mask, spec_oo_blockers,
    spec_ooo_blockers, spec_ooo_danger, spec_pawn_attacks, spec_sq_bb, sq_bb,
};
use crate::position::{
    spec_color_bb, spec_d12_sliders, spec_hv_sliders, spec_king_sq, spec_long,
    spec_long_king_target, spec_occ, spec_short, spec_short_king_target, Position, State,
};
use crate::types::{
    lemma_poplsb_is_xor, lemma_scan_bits_step, lemma_scan_bits_zero, ml_add, ml_extend, ml_promos,
    scan_bits, BitBoard, Direction, Move, MoveList, Piece, spec_relative, spec_relative_rank,
    spec_shift,
};

verus! {

/// One piece's captures and quiet moves: the destinations `mvs` split
/// against the opponent's pieces and the empty squares, captures first.
pub open spec fn split_step(acc: Seq<Move>, sq: usize, mvs: u64, en: u64, em: u64) -> Seq<Move> {
    ml_extend(ml_extend(acc, sq, mvs & en, 1), sq, mvs & em, 0)
}

/// The per-square emission of one knight, inside the checkmask.
pub open spec fn knight_step(acc: Seq<Move>, sq: usize, cm: u64, en: u64, em: u64) -> Seq<Move> {
    split_step(acc, sq, spec_knight_mask(sq) & cm, en, em)
}

/// The emitter folding `knight_step` over a mask of knights.
pub open spec fn knight_emitter(cm: u64, en: u64, em: u64) -> spec_fn(Seq<Move>, usize) -> Seq<
    Move,
> {
    (|acc: Seq<Move>, sq: usize| knight_step(acc, sq, cm, en, em))
}

/// The per-square emission of one rook-wise slider, inside the checkmask
/// and confined to `confine`: a pin ray, or every square when unpinned.
pub open spec fn hv_step(acc: Seq<Move>, sq: usize, occ: u64, cm: u64, confine: u64, en: u64, em: u64) -> Seq<Move> {
    split_step(acc, sq, spec_hv_moves(sq, occ) & cm & confine, en, em)
}

/// The emitter folding `hv_step` over a mask of rook-wise sliders.
pub open spec fn hv_emitter(occ: u64, cm: u64, confine: u64, en: u64, em: u64) -> spec_fn(
    Seq<Move>,
    usize,
) -> Seq<Move> {
    (|acc: Seq<Move>, sq: usize| hv_step(acc, sq, occ, cm, confine, en, em))
}

/// The per-square emission of one bishop-wise slider.
pub open spec fn d12_step(acc: Seq<Move>, sq: usize, occ: u64, cm: u64, confine: u64, en: u64, em: u64) -> Seq<Move> {
    split_step(acc, sq, spec_d12_moves(sq, occ) & cm & confine, en, em)
}

/// The emitter folding `d12_step` over a mask of bishop-wise sliders.
pub open spec fn d12_emitter(occ: u64, cm: u64, confine: u64, en: u64, em: u64) -> spec_fn(
    Seq<Move>,
    usize,
) -> Seq<Move> {
    (|acc: Seq<Move>, sq: usize| d12_step(acc, sq, occ, cm, confine, en, em))
}

/// The per-destination emission of one pawn move: the start square lies
/// `d` squares behind the destination from the mover's point of view.
pub open spec fn pawn_step(acc: Seq<Move>, sq: usize, turn: usize, d: usize, flag: usize) -> Seq<
    Move,
> {
    if turn == 0 {
        if sq >= d {
            ml_add(acc, Move::spec_new((sq - d) as usize, sq, flag))
        } else {
            acc
        }
    } else {
        if sq + d < 64 {
            ml_add(acc, Move::spec_new((sq + d) as usize, sq, flag))
        } else {
            acc
        }
    }
}

/// The emitter folding `pawn_step` over a mask of pawn destinations.
pub open spec fn pawn_emitter(turn: usize, d: usize, flag: usize) -> spec_fn(Seq<Move>, usize) -> Seq<
    Move,
> {
    (|acc: Seq<Move>, sq: usize| pawn_step(acc, sq, turn, d, flag))
}

/// The per-destination emission of a pawn's four promotions.
pub open spec fn pawn_promo_step(acc: Seq<Move>, sq: usize, turn: usize, d: usize, capture: bool) -> Seq<
    Move,
> {
    if turn == 0 {
        if sq >= d {
            ml_promos(acc, (sq - d) as usize, sq, capture)
        } else {
            acc
        }
    } else {
        if sq + d < 64 {
            ml_promos(acc, (sq + d) as usize, sq, capture)
        } else {
            acc
        }
    }
}

/// The emitter folding `pawn_promo_step` over a mask of destinations.
pub open spec fn pawn_promo_emitter(turn: usize, d: usize, capture: bool) -> spec_fn(
    Seq<Move>,
    usize,
) -> Seq<Move> {
    (|acc: Seq<Move>, sq: usize| pawn_promo_step(acc, sq, turn, d, capture))
}

/// Whether some slider of `bb` on the king's rank sees the king through
/// the occupancy `occ2`, scanning squares `k` and upward.
pub open spec fn spec_ep_exposed(bb: u64, king: usize, occ2: u64, k: nat) -> bool
    decreases 64 - k,
{
    if k >= 64 {
        false
    } else {
        (bb_bit(bb, k as u64) && spec_between(k as usize, king) & occ2 == 0) || spec_ep_exposed(
            bb,
            king,
            occ2,
            (k + 1) as nat,
        )
    }
}

/// The per-capturer emission of an en-passant move: a diagonally pinned
/// capturer stays on its pin ray; otherwise the capture is dropped when
/// lifting both pawns uncovers a rank slider onto the king.
pub open spec fn ep_step(
    acc: Seq<Move>,
    sq: usize,
    pin: u64,
    cm: u64,
    sliders: u64,
    occ: u64,
    ep: usize,
    victim: usize,
    king: usize,
) -> Seq<Move> {
    if pin & spec_sq_bb(sq) != 0 {
        ml_extend(acc, sq, spec_sq_bb(ep) & pin & cm, 3)
    } else {
        if !spec_ep_exposed(sliders, king, occ & !spec_sq_bb(sq) & !spec_sq_bb(victim), 0) {
            if cm == spec_sq_bb(victim) {
                ml_extend(acc, sq, spec_sq_bb(ep), 3)
            } else {
                ml_extend(acc, sq, spec_sq_bb(ep) & cm, 3)
            }
        } else {
            acc
        }
    }
}

/// The emitter folding `ep_step` over the mask of possible capturers.
pub open spec fn ep_emitter(
    pin: u64,
    cm: u64,
    sliders: u64,
    occ: u64,
    ep: usize,
    victim: usize,
    king: usize,
) -> spec_fn(Seq<Move>, usize) -> Seq<Move> {
    (|acc: Seq<Move>, sq: usize| ep_step(acc, sq, pin, cm, sliders, occ, ep, victim, king))
}

/// An en-passant capture that would uncover a rank slider onto the king
/// is omitted: when the capturer is not diagonally pinned and the scan
/// with both pawns lifted sees the king, the emission step adds no move.
pub proof fn lemma_ep_discovered_check_omitted(
    acc: Seq<Move>,
    sq: usize,
    pin: u64,
    cm: u64,
    sliders: u64,
    occ: u64,
    ep: usize,
    victim: usize,
    king: usize,
)
    requires
        pin & spec_sq_bb(sq) == 0,
        spec_ep_exposed(sliders, king, occ & !spec_sq_bb(sq) & !spec_sq_bb(victim), 0),
    ensures
        ep_step(acc, sq, pin, cm, sliders, occ, ep, victim, king) == acc,
{
}

/// A scan over a range without set bits does not see a slider.
proof fn lemma_ep_exposed_empty_range(bb: u64, king: usize, occ2: u64, k1: nat, k2: nat)
    requires
        k1 <= k2 <= 64,
        forall|j: u64| k1 <= j < k2 ==> !bb_bit(bb, j),
    ensures
        spec_ep_exposed(bb, king, occ2, k1) == spec_ep_exposed(bb, king, occ2, k2),
    decreases k2 - k1,
{
    if k1 < k2 {
        lemma_ep_exposed_empty_range(bb, king, occ2, (k1 + 1) as nat, k2);
    }
}

/// Two slider masks that agree from square `k` upward scan the same way.
proof fn lemma_ep_exposed_same_high(b1: u64, b2: u64, king: usize, occ2: u64, k: nat)
    requires
        k <= 64,
        forall|j: u64| k <= j < 64 ==> bb_bit(b1, j) == bb_bit(b2, j),
    ensures
        spec_ep_exposed(b1, king, occ2, k) == spec_ep_exposed(b2, king, occ2, k),
    decreases 64 - k,
{
    if k < 64 {
        lemma_ep_exposed_same_high(b1, b2, king, occ2, (k + 1) as nat);
    }
}

/// The scan of a mask splits into its lowest set square and the rest.
proof fn lemma_ep_exposed_step(bb: u64, king: usize, occ2: u64, sq: u64)
    requires
        sq < 64,
        bb_bit(bb, sq),
        forall|j: u64| j < sq ==> !bb_bit(bb, j),
    ensures
        spec_ep_exposed(bb, king, occ2, 0) == ((spec_between(sq as usize, king) & occ2 == 0)
            || spec_ep_exposed((bb ^ (1u64 << sq)), king, occ2, 0)),
{
    let bb2 = bb ^ (1u64 << sq);
    assert(forall|j: u64|
        j < 64 && j != sq && sq < 64 ==> bb_bit((bb ^ (1u64 << sq)), j) == bb_bit(bb, j))
        by (bit_vector);
    assert(sq < 64 && bb_bit(bb, sq) ==> !bb_bit((bb ^ (1u64 << sq)), sq)) by (bit_vector);
    lemma_ep_exposed_empty_range(bb, king, occ2, 0, sq as nat);
    assert(spec_ep_exposed(bb, king, occ2, sq as nat) == ((spec_between(sq as usize, king) & occ2
        == 0) || spec_ep_exposed(bb, king, occ2, (sq + 1) as nat)));
    assert forall|j: u64| 0 <= j < (sq + 1) as nat implies !bb_bit(bb2, j) by {
        if j != sq {
            assert(bb_bit(bb2, j) == bb_bit(bb, j));
        }
    }
    lemma_ep_exposed_empty_range(bb2, king, occ2, 0, (sq + 1) as nat);
    lemma_ep_exposed_same_high(bb, bb2, king, occ2, (sq + 1) as nat);
}

/// An empty slider mask never sees the king.
proof fn lemma_ep_exposed_zero(king: usize, occ2: u64)
    ensures
        !spec_ep_exposed(0u64, king, occ2, 0),
{
    assert(forall|j: u64| !bb_bit(0u64, j)) by (bit_vector);
    lemma_ep_exposed_empty_range(0u64, king, occ2, 0, 64);
}

/// Whether some slider of `bb0` on the king's rank sees the king through
/// the occupancy `occ2`.
fn ep_exposed(bb0: u64, king: usize, occ2: u64) -> (r: bool)
    requires
        king < 64,
    ensures
        r == spec_ep_exposed(bb0, king, occ2, 0),
{
    let mut bb = bb0;
    let mut exposed = false;
    while bb != 0
        invariant
            king < 64,
            spec_ep_exposed(bb0, king, occ2, 0) == (exposed || spec_ep_exposed(bb, king, occ2, 0)),
        decreases bb,
    {
        let sq = bit_scan64(bb);
        if between(sq, king) & occ2 == 0 {
            exposed = true;
        }
        let prev = bb;
        bb = poplsb64(bb);
        proof {
            lemma_poplsb_is_xor(prev);
            lemma_ep_exposed_step(prev, king, occ2, sq as u64);
        }
    }
    proof {
        lemma_ep_exposed_zero(king, occ2);
    }
    exposed
}

/// Emits the moves of every knight of the mask, inside the checkmask.
fn gen_knights(list: &mut MoveList, bb0: u64, cm: u64, en: u64, em: u64)
    requires
        old(list).wf(),
    ensures
        final(list).wf(),
        final(list)@ == scan_bits(old(list)@, bb0, 0, knight_emitter(cm, en, em)),
{
    let ghost e = knight_emitter(cm, en, em);
    let mut bb = bb0;
    while bb != 0
        invariant
            list.wf(),
            e == knight_emitter(cm, en, em),
            scan_bits(old(list)@, bb0, 0, e) == scan_bits(list@, bb, 0, e),
        decreases bb,
    {
        let ghost before = list@;
        let s = bit_scan64(bb);
        let km = knight_mask(s);
        list.extend(s, km & cm & en, Move::CAPTURE);
        list.extend(s, km & cm & em, Move::QUIET);
        let prev = bb;
        bb = poplsb64(bb);
        proof {
            lemma_poplsb_is_xor(prev);
            lemma_scan_bits_step(before, prev, s as u64, e);
            assert(e(before, s) == knight_step(before, s, cm, en, em));
            assert(list@ == e(before, s));
        }
    }
    proof {
        lemma_scan_bits_zero(list@, e);
    }
}

/// Emits the moves of every rook-wise slider of the mask, inside the
/// checkmask and confined to `confine`.
fn gen_hv(list: &mut MoveList, bb0: u64, occ: u64, cm: u64, confine: u64, en: u64, em: u64)
    requires
        old(list).wf(),
    ensures
        final(list).wf(),
        final(list)@ == scan_bits(old(list)@, bb0, 0, hv_emitter(occ, cm, confine, en, em)),
{
    let ghost e = hv_emitter(occ, cm, confine, en, em);
    let mut bb = bb0;
    while bb != 0
        invariant
            list.wf(),
            e == hv_emitter(occ, cm, confine, en, em),
            scan_bits(old(list)@, bb0, 0, e) == scan_bits(list@, bb, 0, e),
        decreases bb,
    {
        let ghost before = list@;
        let s = bit_scan64(bb);
        let mvs = hv_moves(s, occ) & cm & confine;
        list.extend(s, mvs & en, Move::CAPTURE);
        list.extend(s, mvs & em, Move::QUIET);
        let prev = bb;
        bb = poplsb64(bb);
        proof {
            lemma_poplsb_is_xor(prev);
            lemma_scan_bits_step(before, prev, s as u64, e);
            assert(e(before, s) == hv_step(before, s, occ, cm, confine, en, em));
            assert(list@ == e(before, s));
        }
    }
    proof {
        lemma_scan_bits_zero(list@, e);
    }
}

/// Emits the moves of every bishop-wise slider of the mask, inside the
/// checkmask and confined to `confine`.
fn gen_d12(list: &mut MoveList, bb0: u64, occ: u64, cm: u64, confine: u64, en: u64, em: u64)
    requires
        old(list).wf(),
    ensures
        final(list).wf(),
        final(list)@ == scan_bits(old(list)@, bb0, 0, d12_emitter(occ, cm, confine, en, em)),
{
    let ghost e = d12_emitter(occ, cm, confine, en, em);
    let mut bb = bb0;
    while bb != 0
        invariant
            list.wf(),
            e == d12_emitter(occ, cm, confine, en, em),
            scan_bits(old(list)@, bb0, 0, e) == scan_bits(list@, bb, 0, e),
        decreases bb,
    {
        let ghost before = list@;
        let s = bit_scan64(bb);
        let mvs = d12_moves(s, occ) & cm & confine;
        list.extend(s, mvs & en, Move::CAPTURE);
        list.extend(s, mvs & em, Move::QUIET);
        let prev = bb;
        bb = poplsb64(bb);
        proof {
            lemma_poplsb_is_xor(prev);
            lemma_scan_bits_step(before, prev, s as u64, e);
            assert(e(before, s) == d12_step(before, s, occ, cm, confine, en, em));
            assert(list@ == e(before, s));
        }
    }
    proof {
        lemma_scan_bits_zero(list@, e);
    }
}

/// Emits one pawn move per destination of the mask, the start square `d`
/// squares behind from the mover's point of view.
fn gen_pawn_steps(list: &mut MoveList, bb0: u64, turn: usize, d: usize, flag: usize)
    requires
        old(list).wf(),
        0 < d <= 16,
        flag < 16,
    ensures
        final(list).wf(),
        final(list)@ == scan_bits(old(list)@, bb0, 0, pawn_emitter(turn, d, flag)),
{
    let ghost e = pawn_emitter(turn, d, flag);
    let mut bb = bb0;
    while bb != 0
        invariant
            list.wf(),
            0 < d <= 16,
            flag < 16,
            e == pawn_emitter(turn, d, flag),
            scan_bits(old(list)@, bb0, 0, e) == scan_bits(list@, bb, 0, e),
        decreases bb,
    {
        let ghost before = list@;
        let s = bit_scan64(bb);
        if turn == 0 {
            if s >= d {
                list.add(s - d, s, flag);
            }
        } else {
            if s + d < 64 {
                list.add(s + d, s, flag);
            }
        }
        let prev = bb;
        bb = poplsb64(bb);
        proof {
            lemma_poplsb_is_xor(prev);
            lemma_scan_bits_step(before, prev, s as u64, e);
            assert(e(before, s) == pawn_step(before, s, turn, d, flag));
            assert(list@ == e(before, s));
        }
    }
    proof {
        lemma_scan_bits_zero(list@, e);
    }
}

/// Emits the four promotions per destination of the mask, the start
/// square `d` squares behind from the mover's point of view.
fn gen_pawn_promos(list: &mut MoveList, bb0: u64, turn: usize, d: usize, capture: bool)
    requires
        old(list).wf(),
        0 < d <= 16,
    ensures
        final(list).wf(),
        final(list)@ == scan_bits(old(list)@, bb0, 0, pawn_promo_emitter(turn, d, capture)),
{
    let ghost e = pawn_promo_emitter(turn, d, capture);
    let mut bb = bb0;
    while bb != 0
        invariant
            list.wf(),
            0 < d <= 16,
            e == pawn_promo_emitter(turn, d, capture),
            scan_bits(old(list)@, bb0, 0, e) == scan_bits(list@, bb, 0, e),
        decreases bb,
    {
        let ghost before = list@;
        let s = bit_scan64(bb);
        if turn == 0 {
            if s >= d {
                list.add_promotions(s - d, s, capture);
            }
        } else {
            if s + d < 64 {
                list.add_promotions(s + d, s, capture);
            }
        }
        let prev = bb;
        bb = poplsb64(bb);
        proof {
            lemma_poplsb_is_xor(prev);
            lemma_scan_bits_step(before, prev, s as u64, e);
            assert(e(before, s) == pawn_promo_step(before, s, turn, d, capture));
            assert(list@ == e(before, s));
        }
    }
    proof {
        lemma_scan_bits_zero(list@, e);
    }
}

/// Emits the en-passant move of every capturer of the mask that survives
/// the pin and discovered-check tests.
fn gen_ep(
    list: &mut MoveList,
    bb0: u64,
    pin: u64,
    cm: u64,
    sliders: u64,
    occ: u64,
    ep: usize,
    victim: usize,
    king: usize,
)
    requires
        old(list).wf(),
        ep < 64,
        victim < 64,
        king < 64,
    ensures
        final(list).wf(),
        final(list)@ == scan_bits(
            old(list)@,
            bb0,
            0,
            ep_emitter(pin, cm, sliders, occ, ep, victim, king),
        ),
{
    let ghost e = ep_emitter(pin, cm, sliders, occ, ep, victim, king);
    let mut bb = bb0;
    while bb != 0
        invariant
            list.wf(),
            ep < 64,
            victim < 64,
            king < 64,
            e == ep_emitter(pin, cm, sliders, occ, ep, victim, king),
            scan_bits(old(list)@, bb0, 0, e) == scan_bits(list@, bb, 0, e),
        decreases bb,
    {
        let ghost before = list@;
        let s = bit_scan64(bb);
        let b2e = sq_bb(ep);
        if pin & sq_bb(s) != 0 {
            list.extend(s, b2e & pin & cm, Move::EN_PASSANT);
        } else {
            let occ2 = occ & !sq_bb(s) & !sq_bb(victim);
            if !ep_exposed(sliders, king, occ2) {
                if cm == sq_bb(victim) {
                    list.extend(s, b2e, Move::EN_PASSANT);
                } else {
                    list.extend(s, b2e & cm, Move::EN_PASSANT);
                }
            }
        }
        let prev = bb;
        bb = poplsb64(bb);
        proof {
            lemma_poplsb_is_xor(prev);
            lemma_scan_bits_step(before, prev, s as u64, e);
            assert(e(before, s) == ep_step(before, s, pin, cm, sliders, occ, ep, victim, king));
            assert(list@ == e(before, s));
        }
    }
    proof {
        lemma_scan_bits_zero(list@, e);
    }
}

/// The king's own moves: its attack set outside the danger map, captures
/// then quiet moves.
pub open spec fn spec_legal_king(m: PosModel) -> Seq<Move> {
    let turn = m.history[m.ply].turn;
    let them = (1 - turn) as usize;
    let o_king = spec_king_sq(m, turn);
    let occ = spec_occ(m);
    let en = spec_color_bb(m, them);
    let em = !occ;
    let kb = spec_king_mask(o_king) & !m.danger;
    ml_extend(ml_extend(Seq::<Move>::empty(), o_king, kb & en, 1), o_king, kb & em, 0)
}

use crate::position::PosModel;

/// Every move the generator emits after the king's own moves, in emission
/// order, when the position is not under double check.
pub open spec fn spec_legal_rest(m: PosModel, l0: Seq<Move>) -> Seq<Move> {
    let st = m.history[m.ply];
    let turn = st.turn;
    let them = (1 - turn) as usize;
    let o_king = spec_king_sq(m, turn);
    let occ = spec_occ(m);
    let en = spec_color_bb(m, them);
    let em = !occ;
    let cm = m.checkmask;
    let all = 0xffffffffffffffffu64;
    let pinned = m.pin_hv | m.pin_d12;
    let l1 = scan_bits(l0, m.pieces[turn as int][1] & !pinned, 0, knight_emitter(cm, en, em));
    let l2 = scan_bits(
        l1,
        spec_hv_sliders(m, turn) & !m.pin_d12 & m.pin_hv,
        0,
        hv_emitter(occ, cm, m.pin_hv, en, em),
    );
    let l3 = scan_bits(
        l2,
        spec_hv_sliders(m, turn) & !m.pin_d12 & !m.pin_hv,
        0,
        hv_emitter(occ, cm, all, en, em),
    );
    let l4 = scan_bits(
        l3,
        spec_d12_sliders(m, turn) & !m.pin_hv & m.pin_d12,
        0,
        d12_emitter(occ, cm, m.pin_d12, en, em),
    );
    let l5 = scan_bits(
        l4,
        spec_d12_sliders(m, turn) & !m.pin_hv & !m.pin_d12,
        0,
        d12_emitter(occ, cm, all, en, em),
    );
    let pawns = m.pieces[turn as int][0];
    let north = spec_relative(Direction::North, turn);
    let r8 = spec_relative_rank(8, turn);
    let r4 = spec_relative_rank(4, turn);
    let b1p = spec_shift(pawns & !pinned, north) & em;
    let l6 = scan_bits(l5, b1p & !r8 & cm, 0, pawn_emitter(turn, 8, 0));
    let l7 = scan_bits(l6, b1p & r8 & cm, 0, pawn_promo_emitter(turn, 8, false));
    let l8 = scan_bits(l7, spec_shift(b1p, north) & em & r4 & cm, 0, pawn_emitter(turn, 16, 2));
    let b1hp = spec_shift(pawns & !m.pin_d12 & m.pin_hv, north) & em & m.pin_hv & cm;
    let l9 = scan_bits(l8, b1hp, 0, pawn_emitter(turn, 8, 0));
    let l10 = scan_bits(
        l9,
        spec_shift(b1hp, north) & em & m.pin_hv & r4 & cm,
        0,
        pawn_emitter(turn, 16, 2),
    );
    let ne = spec_relative(Direction::NorthEast, turn);
    let nw = spec_relative(Direction::NorthWest, turn);
    let b1e = spec_shift(pawns & !pinned, ne) & en & cm;
    let l11 = scan_bits(l10, b1e & !r8, 0, pawn_emitter(turn, 9, 1));
    let l12 = scan_bits(l11, b1e & r8, 0, pawn_promo_emitter(turn, 9, true));
    let b1w = spec_shift(pawns & !pinned, nw) & en & cm;
    let l13 = scan_bits(l12, b1w & !r8, 0, pawn_emitter(turn, 7, 1));
    let l14 = scan_bits(l13, b1w & r8, 0, pawn_promo_emitter(turn, 7, true));
    let b1pe = spec_shift(pawns & !m.pin_hv & m.pin_d12, ne) & en & m.pin_d12 & cm;
    let l15 = scan_bits(l14, b1pe & !r8, 0, pawn_emitter(turn, 9, 1));
    let l16 = scan_bits(l15, b1pe & r8, 0, pawn_promo_emitter(turn, 9, true));
    let b1pw = spec_shift(pawns & !m.pin_hv & m.pin_d12, nw) & en & m.pin_d12 & cm;
    let l17 = scan_bits(l16, b1pw & !r8, 0, pawn_emitter(turn, 7, 1));
    let l18 = scan_bits(l17, b1pw & r8, 0, pawn_promo_emitter(turn, 7, true));
    let l19 = match st.ep {
        Some(ep) => if ep < 64 {
            let victim = if turn == 0 {
                if ep >= 8 {
                    (ep - 8) as usize
                } else {
                    ep
                }
            } else {
                if ep < 56 {
                    (ep + 8) as usize
                } else {
                    ep
                }
            };
            let sliders = spec_hv_sliders(m, them) & (0xffu64 << (((o_king / 8) * 8) as u64));
            scan_bits(
                l18,
                spec_pawn_attacks(them, ep) & pawns & !m.pin_hv,
                0,
                ep_emitter(m.pin_d12, cm, sliders, occ, ep, victim, o_king),
            )
        } else {
            l18
        },
        None => l18,
    };
    let l20 = if cm == all && st.castling & spec_short(turn) != 0 && spec_oo_blockers(turn)
        & !m.danger & !occ == spec_oo_blockers(turn) {
        ml_add(l19, Move::spec_new(o_king, spec_short_king_target(turn), 4))
    } else {
        l19
    };
    if cm == all && st.castling & spec_long(turn) != 0 && spec_ooo_blockers(turn) & (!m.danger
        | spec_ooo_danger(turn)) & !occ == spec_ooo_blockers(turn) {
        ml_add(l20, Move::spec_new(o_king, spec_long_king_target(turn), 5))
    } else {
        l20
    }
}

/// The exact list of moves the generator emits for a position, in
/// emission order: the whole behaviour of `legal`.
pub open spec fn spec_legal(m: PosModel) -> Seq<Move> {
    if m.checkmask == 0 {
        spec_legal_king(m)
    } else {
        spec_legal_rest(m, spec_legal_king(m))
    }
}

impl Position {
    /// Calculates all the legal moves in the position: exactly the list
    /// that `spec_legal` describes. Under double check every returned move
    /// is a king move.
    #[verifier::rlimit(100)]
    #[verifier::spinoff_prover]
    pub fn legal(&self) -> (list: MoveList)
        requires
            wf(self@),
        ensures
            list.wf(),
            list@ == spec_legal(self@),
            spec_check_count(self@) >= 2 ==> forall|i: int|
                0 <= i < list@.len() ==> #[trigger] list@[i].spec_from() == spec_king_sq(
                    self@,
                    self@.history[self@.ply].turn,
                ),
    {
        let mut list = MoveList::new();
        let state = self.actual_state();
        let turn = state.turn;
        let them = 1 - turn;
        let o_king = self.king(turn);

        // Useful bitboards
        let occ = self.occupancy();
        let en = self.colors(them);
        let em = !occ;

        // Generate king moves first
        let kb = king_mask(o_king) & !self.danger;
        list.extend(o_king, kb & en, Move::CAPTURE);
        list.extend(o_king, kb & em, Move::QUIET);
        proof {
            assert(list@ == spec_legal_king(self@));
        }

        // Quick check: under a double check, only king moves are legal
        if self.checkmask == 0 {
            return list;
        }
        proof {
            assert(spec_check_count(self@) < 2);
        }
        let ghost l0 = list@;
        let cm = self.checkmask;
        let all = 0xffffffffffffffffu64;
        let pinned = self.pin_hv | self.pin_d12;

        // Knight moves: a pinned knight can never move
        gen_knights(&mut list, self.bb_of(turn, Piece::KNIGHT) & !pinned, cm, en, em);

        // Orthogonal sliders pinned orthogonally stay on their pin ray,
        // unpinned ones roam inside the checkmask
        gen_hv(&mut list, self.hv_sliders(turn) & !self.pin_d12 & self.pin_hv, occ, cm, self.pin_hv, en, em);
        gen_hv(&mut list, self.hv_sliders(turn) & !self.pin_d12 & !self.pin_hv, occ, cm, all, en, em);

        // Diagonal sliders likewise
        gen_d12(&mut list, self.d12_sliders(turn) & !self.pin_hv & self.pin_d12, occ, cm, self.pin_d12, en, em);
        gen_d12(&mut list, self.d12_sliders(turn) & !self.pin_hv & !self.pin_d12, occ, cm, all, en, em);

        // Pawn single and double pushes of unpinned pawns, promotions on
        // the back rank
        let pawns = self.bb_of(turn, Piece::PAWN);
        let r8 = BitBoard::relative_rank(8, turn);
        let r4 = BitBoard::relative_rank(4, turn);
        let b1p = BitBoard::shift_dir(pawns & !pinned, Direction::North.relative(turn)) & em;
        gen_pawn_steps(&mut list, b1p & !r8 & cm, turn, 8, Move::QUIET);
        gen_pawn_promos(&mut list, b1p & r8 & cm, turn, 8, false);
        gen_pawn_steps(
            &mut list,
            BitBoard::shift_dir(b1p, Direction::North.relative(turn)) & em & r4 & cm,
            turn,
            16,
            Move::DOUBLE_PUSH,
        );

        // Pawn pushes of orthogonally pinned pawns stay on the pin file
        let b1hp = BitBoard::shift_dir(
            pawns & !self.pin_d12 & self.pin_hv,
            Direction::North.relative(turn),
        ) & em & self.pin_hv & cm;
        gen_pawn_steps(&mut list, b1hp, turn, 8, Move::QUIET);
        gen_pawn_steps(
            &mut list,
            BitBoard::shift_dir(b1hp, Direction::North.relative(turn)) & em & self.pin_hv & r4
                & cm,
            turn,
            16,
            Move::DOUBLE_PUSH,
        );

        // Pawn captures of unpinned pawns toward both sides, promotions on
        // the back rank
        let b1e = BitBoard::shift_dir(pawns & !pinned, Direction::NorthEast.relative(turn)) & en
            & cm;
        gen_pawn_steps(&mut list, b1e & !r8, turn, 9, Move::CAPTURE);
        gen_pawn_promos(&mut list, b1e & r8, turn, 9, true);
        let b1w = BitBoard::shift_dir(pawns & !pinned, Direction::NorthWest.relative(turn)) & en
            & cm;
        gen_pawn_steps(&mut list, b1w & !r8, turn, 7, Move::CAPTURE);
        gen_pawn_promos(&mut list, b1w & r8, turn, 7, true);

        // Pawn captures of diagonally pinned pawns land on the pin ray
        let b1pe = BitBoard::shift_dir(
            pawns & !self.pin_hv & self.pin_d12,
            Direction::NorthEast.relative(turn),
        ) & en & self.pin_d12 & cm;
        gen_pawn_steps(&mut list, b1pe & !r8, turn, 9, Move::CAPTURE);
        gen_pawn_promos(&mut list, b1pe & r8, turn, 9, true);
        let b1pw = BitBoard::shift_dir(
            pawns & !self.pin_hv & self.pin_d12,
            Direction::NorthWest.relative(turn),
        ) & en & self.pin_d12 & cm;
        gen_pawn_steps(&mut list, b1pw & !r8, turn, 7, Move::CAPTURE);
        gen_pawn_promos(&mut list, b1pw & r8, turn, 7, true);

        // En passant: the capturer must not be pinned orthogonally, a
        // diagonally pinned capturer must land on its pin ray, and lifting
        // both pawns must not uncover a rank slider onto our king
        if let Some(ep) = state.ep {
            if ep < 64 {
                let victim = if turn == 0 {
                    if ep >= 8 {
                        ep - 8
                    } else {
                        ep
                    }
                } else {
                    if ep < 56 {
                        ep + 8
                    } else {
                        ep
                    }
                };
                let sliders = self.hv_sliders(them) & (BitBoard::RANK_1 << (((o_king / 8) * 8) as u64));
                gen_ep(
                    &mut list,
                    pawn_attacks(them, ep) & pawns & !self.pin_hv,
                    self.pin_d12,
                    cm,
                    sliders,
                    occ,
                    ep,
                    victim,
                    o_king,
                );
            }
        }

        // Castling: never under check, never across attacked squares, only
        // while the right is still held
        if cm == all {
            if state.can_castle(State::short(turn)) {
                let bl = crate::lookup::oo_blockers(turn);
                if bl & !self.danger & !occ == bl {
                    list.add(o_king, State::short_king_target(turn), Move::CASTLE_00);
                }
            }
            if state.can_castle(State::long(turn)) {
                let bl = crate::lookup::ooo_blockers(turn);
                if bl & (!self.danger | crate::lookup::ooo_danger(turn)) & !occ == bl {
                    list.add(o_king, State::long_king_target(turn), Move::CASTLE_000);
                }
            }
        }
        proof {
            assert(list@ == spec_legal_rest(self@, l0));
        }

        list
    }
}

} // verus!
