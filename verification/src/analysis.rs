//! The attack-and-pin analyzer: the opponent's danger map, the checkmask
//! and the two pin masks, with spec mirrors that pin the cached fields down.

use vstd::prelude::*;
use vstd::std_specs::bits::u64_trailing_zeros;

use crate::bits::{bit_scan64, pcount, popcnt64, poplsb64};
use crate::lookup::{
    between, d12_mask, d12_moves, hv_mask, hv_moves, king_mask, knight_mask, line, pawn_attacks,
    spec_between, spec_d12_mask, spec_d12_moves, spec_hv_mask, spec_hv_moves, spec_king_mask,
    spec_knight_mask, spec_line, spec_pawn_attacks, spec_sq_bb, sq_bb,
};
use crate::position::{
    dims_ok, history_ok, kings_ok, spec_color_bb, spec_d12_sliders, spec_hv_sliders, spec_king_sq,
    spec_occ, wf_core, PosModel, Position,
};

verus! {

/// The lowest set square of a non-empty mask.
pub open spec fn spec_tz(bb: u64) -> usize {
    u64_trailing_zeros(bb) as usize
}

/// The mask with its lowest set bit removed.
pub open spec fn spec_pop(bb: u64) -> u64 {
    bb & ((bb - 1) as u64)
}

/// Union of the capture targets of every pawn of `color` in `bb`,
/// processing at most `n` pawns.
pub open spec fn spec_fold_pawn(color: usize, bb: u64, n: nat) -> u64
    decreases n,
{
    if n == 0 || bb == 0 {
        0
    } else {
        spec_pawn_attacks(color, spec_tz(bb)) | spec_fold_pawn(color, spec_pop(bb), (n - 1) as nat)
    }
}

/// Union of the capture targets of every pawn of `color` in `bb`.
fn fold_pawn(color: usize, bb: u64, n: u64) -> (r: u64)
    ensures
        r == spec_fold_pawn(color, bb, n as nat),
    decreases n,
{
    if n == 0 || bb == 0 {
        0
    } else {
        pawn_attacks(color, bit_scan64(bb)) | fold_pawn(color, poplsb64(bb), n - 1)
    }
}

/// Union of the attack sets of every knight in `bb`.
pub open spec fn spec_fold_knight(bb: u64, n: nat) -> u64
    decreases n,
{
    if n == 0 || bb == 0 {
        0
    } else {
        spec_knight_mask(spec_tz(bb)) | spec_fold_knight(spec_pop(bb), (n - 1) as nat)
    }
}

/// Union of the attack sets of every knight in `bb`.
fn fold_knight(bb: u64, n: u64) -> (r: u64)
    ensures
        r == spec_fold_knight(bb, n as nat),
    decreases n,
{
    if n == 0 || bb == 0 {
        0
    } else {
        knight_mask(bit_scan64(bb)) | fold_knight(poplsb64(bb), n - 1)
    }
}

/// Union of the rook-wise attack sets of every slider in `bb`.
pub open spec fn spec_fold_hv(bb: u64, occ: u64, n: nat) -> u64
    decreases n,
{
    if n == 0 || bb == 0 {
        0
    } else {
        spec_hv_moves(spec_tz(bb), occ) | spec_fold_hv(spec_pop(bb), occ, (n - 1) as nat)
    }
}

/// Union of the rook-wise attack sets of every slider in `bb`.
fn fold_hv(bb: u64, occ: u64, n: u64) -> (r: u64)
    ensures
        r == spec_fold_hv(bb, occ, n as nat),
    decreases n,
{
    if n == 0 || bb == 0 {
        0
    } else {
        hv_moves(bit_scan64(bb), occ) | fold_hv(poplsb64(bb), occ, n - 1)
    }
}

/// Union of the bishop-wise attack sets of every slider in `bb`.
pub open spec fn spec_fold_d12(bb: u64, occ: u64, n: nat) -> u64
    decreases n,
{
    if n == 0 || bb == 0 {
        0
    } else {
        spec_d12_moves(spec_tz(bb), occ) | spec_fold_d12(spec_pop(bb), occ, (n - 1) as nat)
    }
}

/// Union of the bishop-wise attack sets of every slider in `bb`.
fn fold_d12(bb: u64, occ: u64, n: u64) -> (r: u64)
    ensures
        r == spec_fold_d12(bb, occ, n as nat),
    decreases n,
{
    if n == 0 || bb == 0 {
        0
    } else {
        d12_moves(bit_scan64(bb), occ) | fold_d12(poplsb64(bb), occ, n - 1)
    }
}

/// The danger map: every square the opponent attacks once our king is
/// lifted off the board, so slider rays reach through it.
pub open spec fn spec_attacks(m: PosModel) -> u64 {
    let turn = m.history[m.ply].turn;
    let them = (1 - turn) as usize;
    let o_king = spec_king_sq(m, turn);
    let occ = spec_occ(m) & !spec_sq_bb(o_king);
    spec_king_mask(spec_king_sq(m, them)) | spec_fold_pawn(them, m.pieces[them as int][0], 64)
        | spec_fold_knight(m.pieces[them as int][1], 64) | spec_fold_hv(
        spec_hv_sliders(m, them),
        occ,
        64,
    ) | spec_fold_d12(spec_d12_sliders(m, them), occ, 64)
}

/// One scan over the opponent sliders of one geometry: folds each slider
/// into the checkmask, the check count or the pin mask. The alignment test
/// masks the slider's line with the king's rays excluding the king itself,
/// so a slider aligned only on the other geometry is skipped.
pub open spec fn spec_slider_scan(
    sliders: u64,
    king: usize,
    ours: u64,
    theirs: u64,
    ray_mask: u64,
    ray_mask_2: u64,
    cm: u64,
    cnt: nat,
    pin: u64,
    n: nat,
) -> (u64, nat, u64)
    decreases n,
{
    if n == 0 || sliders == 0 {
        (cm, cnt, pin)
    } else {
        let s = spec_tz(sliders);
        let rest = spec_pop(sliders);
        let b1 = spec_between(king, s) & ray_mask;
        let b2 = spec_line(king, s) & ray_mask_2;
        if b2 == 0 {
            spec_slider_scan(rest, king, ours, theirs, ray_mask, ray_mask_2, cm, cnt, pin, (n
                - 1) as nat)
        } else if b1 == 0 {
            spec_slider_scan(
                rest,
                king,
                ours,
                theirs,
                ray_mask,
                ray_mask_2,
                cm | spec_sq_bb(s),
                cnt + 1,
                pin,
                (n - 1) as nat,
            )
        } else if b1 & theirs != 0 {
            spec_slider_scan(rest, king, ours, theirs, ray_mask, ray_mask_2, cm, cnt, pin, (n
                - 1) as nat)
        } else if b1 & ours == 0 {
            spec_slider_scan(
                rest,
                king,
                ours,
                theirs,
                ray_mask,
                ray_mask_2,
                (cm | spec_sq_bb(s)) | b1,
                cnt + 1,
                pin,
                (n - 1) as nat,
            )
        } else if pcount(b1 & ours) == 1 {
            spec_slider_scan(
                rest,
                king,
                ours,
                theirs,
                ray_mask,
                ray_mask_2,
                cm,
                cnt,
                (pin | spec_sq_bb(s)) | b1,
                (n - 1) as nat,
            )
        } else {
            spec_slider_scan(rest, king, ours, theirs, ray_mask, ray_mask_2, cm, cnt, pin, (n
                - 1) as nat)
        }
    }
}

/// One scan over the opponent sliders of one geometry.
#[verifier::rlimit(30)]
fn slider_scan(
    sliders: u64,
    king: usize,
    ours: u64,
    theirs: u64,
    ray_mask: u64,
    ray_mask_2: u64,
    cm: u64,
    cnt: u64,
    pin: u64,
    n: u64,
) -> (r: (u64, u64, u64))
    requires
        king < 64,
        cnt + n <= 0xffffffffu64,
    ensures
        (r.0, r.1 as nat, r.2) == spec_slider_scan(
            sliders,
            king,
            ours,
            theirs,
            ray_mask,
            ray_mask_2,
            cm,
            cnt as nat,
            pin,
            n as nat,
        ),
        cnt <= r.1 <= cnt + n,
    decreases n,
{
    if n == 0 || sliders == 0 {
        (cm, cnt, pin)
    } else {
        let s = bit_scan64(sliders);
        let rest = poplsb64(sliders);
        let b1 = between(king, s) & ray_mask;
        let b2 = line(king, s) & ray_mask_2;
        if b2 == 0 {
            slider_scan(rest, king, ours, theirs, ray_mask, ray_mask_2, cm, cnt, pin, n - 1)
        } else if b1 == 0 {
            slider_scan(
                rest,
                king,
                ours,
                theirs,
                ray_mask,
                ray_mask_2,
                cm | sq_bb(s),
                cnt + 1,
                pin,
                n - 1,
            )
        } else if b1 & theirs != 0 {
            slider_scan(rest, king, ours, theirs, ray_mask, ray_mask_2, cm, cnt, pin, n - 1)
        } else if b1 & ours == 0 {
            slider_scan(
                rest,
                king,
                ours,
                theirs,
                ray_mask,
                ray_mask_2,
                (cm | sq_bb(s)) | b1,
                cnt + 1,
                pin,
                n - 1,
            )
        } else if popcnt64(b1 & ours) == 1 {
            slider_scan(
                rest,
                king,
                ours,
                theirs,
                ray_mask,
                ray_mask_2,
                cm,
                cnt,
                (pin | sq_bb(s)) | b1,
                n - 1,
            )
        } else {
            slider_scan(rest, king, ours, theirs, ray_mask, ray_mask_2, cm, cnt, pin, n - 1)
        }
    }
}

/// The checkmask, check count and the two pin masks of the side to move.
pub open spec fn spec_analysis(m: PosModel) -> (u64, nat, u64, u64) {
    let turn = m.history[m.ply].turn;
    let them = (1 - turn) as usize;
    let king = spec_king_sq(m, turn);
    let ours = spec_color_bb(m, turn);
    let theirs = spec_color_bb(m, them);
    let cm0 = (spec_knight_mask(king) & m.pieces[them as int][1]) | (spec_pawn_attacks(turn, king)
        & m.pieces[them as int][0]);
    let cnt0 = pcount(cm0);
    let hv = spec_slider_scan(
        spec_hv_sliders(m, them),
        king,
        ours,
        theirs,
        spec_hv_mask(king),
        spec_hv_mask(king),
        cm0,
        cnt0,
        0,
        64,
    );
    let d12 = spec_slider_scan(
        spec_d12_sliders(m, them),
        king,
        ours,
        theirs,
        spec_d12_mask(king),
        spec_d12_mask(king),
        hv.0,
        hv.1,
        0,
        64,
    );
    let cm = if d12.1 == 0 {
        0xffffffffffffffffu64
    } else if d12.1 > 1 {
        0u64
    } else {
        d12.0
    };
    (cm, d12.1, hv.2, d12.2)
}

/// The checkmask of the side to move: all ones outside check, zero under
/// double check, else the checker and its blockable ray.
pub open spec fn spec_checkmask(m: PosModel) -> u64 {
    spec_analysis(m).0
}

/// How many pieces give check to the side to move.
pub open spec fn spec_check_count(m: PosModel) -> nat {
    spec_analysis(m).1
}

/// The orthogonal pin mask of the side to move.
pub open spec fn spec_pin_hv(m: PosModel) -> u64 {
    spec_analysis(m).2
}

/// The diagonal pin mask of the side to move.
pub open spec fn spec_pin_d12(m: PosModel) -> u64 {
    spec_analysis(m).3
}

/// The checkmask's shape follows the check count: out of check every
/// square is open, and under a double check no square is, so only king
/// moves remain.
pub proof fn lemma_checkmask_shape(m: PosModel)
    ensures
        spec_check_count(m) == 0 ==> spec_checkmask(m) == 0xffffffffffffffffu64,
        spec_check_count(m) >= 2 ==> spec_checkmask(m) == 0u64,
{
}

/// The cached masks agree with the analyzer run on the boards.
pub open spec fn masks_ok(m: PosModel) -> bool {
    m.checkmask == spec_checkmask(m) && m.pin_hv == spec_pin_hv(m) && m.pin_d12 == spec_pin_d12(m)
        && m.danger == spec_attacks(m)
}

/// A fully well-formed position: structurally sound with current caches.
pub open spec fn wf(m: PosModel) -> bool {
    wf_core(m) && masks_ok(m)
}

impl Position {
    /// Gets all the attacked squares from the opponent, with our king
    /// lifted off the board.
    pub fn attacks(&self) -> (r: u64)
        requires
            dims_ok(self@),
            kings_ok(self@),
            history_ok(self@),
        ensures
            r == spec_attacks(self@),
    {
        let state = self.actual_state();
        let them = 1 - state.turn;
        let o_king = self.king(state.turn);
        let e_king = self.king(them);
        let occ = self.occupancy() & !sq_bb(o_king);
        king_mask(e_king) | fold_pawn(them, self.bb_of(them, 0), 64) | fold_knight(
            self.bb_of(them, 1),
            64,
        ) | fold_hv(self.hv_sliders(them), occ, 64) | fold_d12(self.d12_sliders(them), occ, 64)
    }

    /// Calculates the checks and pins at the same time.
    pub fn check_and_pin(&self) -> (r: (u64, u64, u64))
        requires
            dims_ok(self@),
            kings_ok(self@),
            history_ok(self@),
        ensures
            r.0 == spec_checkmask(self@),
            r.1 == spec_pin_hv(self@),
            r.2 == spec_pin_d12(self@),
    {
        let state = self.actual_state();
        let them = 1 - state.turn;
        let king = self.king(state.turn);
        let ours = self.colors(state.turn);
        let theirs = self.colors(them);
        let cm0 = (knight_mask(king) & self.bb_of(them, 1)) | (pawn_attacks(state.turn, king)
            & self.bb_of(them, 0));
        let cnt0 = popcnt64(cm0);
        proof {
            crate::bits::lemma_pcount_64(cm0);
        }
        let hv = slider_scan(
            self.hv_sliders(them),
            king,
            ours,
            theirs,
            hv_mask(king),
            hv_mask(king),
            cm0,
            cnt0,
            0,
            64,
        );
        let d12 = slider_scan(
            self.d12_sliders(them),
            king,
            ours,
            theirs,
            d12_mask(king),
            d12_mask(king),
            hv.0,
            hv.1,
            0,
            64,
        );
        let cm = if d12.1 == 0 {
            0xffffffffffffffffu64
        } else if d12.1 > 1 {
            0u64
        } else {
            d12.0
        };
        (cm, hv.2, d12.2)
    }

    /// Updates the checkmask, the pin masks and the danger map.
    pub fn update_checks(&mut self)
        requires
            dims_ok(old(self)@),
            kings_ok(old(self)@),
            history_ok(old(self)@),
        ensures
            masks_ok(final(self)@),
            final(self)@.pieces == old(self)@.pieces,
            final(self)@.history == old(self)@.history,
            final(self)@.ply == old(self)@.ply,
            final(self)@.hash == old(self)@.hash,
            wf_core(old(self)@) ==> wf(final(self)@),
    {
        let (c, hv, d12) = self.check_and_pin();
        self.checkmask = c;
        self.pin_hv = hv;
        self.pin_d12 = d12;
        self.danger = self.attacks();
        proof {
            lemma_analysis_ignores_masks(old(self)@, self@);
        }
    }
}

/// The analyzer reads only the boards and the history: two models that
/// agree there get the same analysis.
pub proof fn lemma_analysis_ignores_masks(m1: PosModel, m2: PosModel)
    requires
        m1.pieces == m2.pieces,
        m1.history == m2.history,
        m1.ply == m2.ply,
    ensures
        spec_analysis(m1) == spec_analysis(m2),
        spec_attacks(m1) == spec_attacks(m2),
{
}

} // verus!
