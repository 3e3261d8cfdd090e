//! Perft drivers: exhaustive leaf counts over the legal move tree, used to
//! hold the generator against the published node counts. The count is
//! pinned exactly by `spec_perft`, the recursive sum over `spec_legal`.

use vstd::prelude::*;

use crate::analysis::wf;
use crate::makeundo::{lemma_make_undo, move_ok, spec_make};
use crate::movegen::spec_legal;
use crate::position::{PosModel, Position};
use crate::types::{n_castles, n_enpassants, n_plain_captures, n_promotions, Move};

verus! {

/// The exact leaf count of the move tree: one leaf at depth zero, else
/// the sum over the generator's list of the counts one level down.
pub open spec fn spec_perft(m: PosModel, depth: nat) -> nat
    decreases depth, 0int,
{
    if depth == 0 {
        1
    } else {
        spec_perft_sum(m, spec_legal(m), 0, (depth - 1) as nat)
    }
}

/// The leaf counts of the children reached from move `i` on: a move that
/// does not fit the position contributes nothing.
pub open spec fn spec_perft_sum(m: PosModel, moves: Seq<Move>, i: int, d: nat) -> nat
    decreases d, moves.len() - i,
{
    if i < 0 || i >= moves.len() {
        0
    } else {
        (if move_ok(m, moves[i]) {
            spec_perft(spec_make(m, moves[i]), d)
        } else {
            0
        }) + spec_perft_sum(m, moves, i + 1, d)
    }
}

/// The exact tallies a complete perft reports: the captures, en passants,
/// castles and promotions generated at each visited node, the visited
/// nodes in check, and those of them that are checkmates, summed over the
/// same tree the node count walks.
pub open spec fn spec_tally(m: PosModel, depth: nat) -> (nat, nat, nat, nat, nat, nat)
    decreases depth, 0int,
{
    if depth == 0 {
        (0, 0, 0, 0, 0, 0)
    } else {
        let l = spec_legal(m);
        let chk: nat = if m.checkmask != 0xffffffffffffffffu64 {
            1
        } else {
            0
        };
        let mate: nat = if m.checkmask != 0xffffffffffffffffu64 && l.len() == 0 {
            1
        } else {
            0
        };
        let rest = spec_tally_sum(m, l, 0, (depth - 1) as nat);
        (
            n_plain_captures(l) + rest.0,
            n_enpassants(l) + rest.1,
            n_castles(l) + rest.2,
            n_promotions(l) + rest.3,
            chk + rest.4,
            mate + rest.5,
        )
    }
}

/// The tallies of the children reached from move `i` on: a move that does
/// not fit the position contributes nothing.
pub open spec fn spec_tally_sum(m: PosModel, moves: Seq<Move>, i: int, d: nat) -> (
    nat,
    nat,
    nat,
    nat,
    nat,
    nat,
)
    decreases d, moves.len() - i,
{
    if i < 0 || i >= moves.len() {
        (0, 0, 0, 0, 0, 0)
    } else {
        let t = if move_ok(m, moves[i]) {
            spec_tally(spec_make(m, moves[i]), d)
        } else {
            (0nat, 0nat, 0nat, 0nat, 0nat, 0nat)
        };
        let rest = spec_tally_sum(m, moves, i + 1, d);
        (t.0 + rest.0, t.1 + rest.1, t.2 + rest.2, t.3 + rest.3, t.4 + rest.4, t.5 + rest.5)
    }
}

/// Adds without ever wrapping: the count sticks at the maximum instead.
fn sat_add_i64(a: i64, b: i64) -> (r: i64)
    requires
        a >= 0,
        b >= 0,
    ensures
        r >= a,
        r >= b,
        a + b <= i64::MAX ==> r == a + b,
{
    if b <= i64::MAX - a {
        a + b
    } else {
        i64::MAX
    }
}

/// Adds without ever wrapping: the count sticks at the maximum instead.
fn sat_add_usize(a: usize, b: usize) -> (r: usize)
    ensures
        r >= a,
        a + b <= usize::MAX ==> r == a + b,
{
    if b <= usize::MAX - a {
        a + b
    } else {
        usize::MAX
    }
}

/// The recursive heart of perft, leaving the position as it found it.
#[verifier::rlimit(60)]
#[verifier::spinoff_prover]
fn perft_rec(pos: &mut Position, depth: usize) -> (r: i64)
    requires
        wf(old(pos)@),
    ensures
        final(pos)@ == old(pos)@,
        r >= 0,
        depth == 0 ==> r == 1,
        spec_perft(old(pos)@, depth as nat) <= i64::MAX ==> r == spec_perft(
            old(pos)@,
            depth as nat,
        ),
    decreases depth,
{
    if depth == 0 {
        return 1;
    }
    let ghost m0 = pos@;
    let ghost d = (depth - 1) as nat;
    let moves = pos.legal();
    let mut nodes: i64 = 0;
    let n = moves.count();
    let mut i: usize = 0;
    while i < n
        invariant
            wf(old(pos)@),
            pos@ == old(pos)@,
            m0 == old(pos)@,
            moves.wf(),
            moves@ == spec_legal(m0),
            n == moves@.len(),
            i <= n,
            nodes >= 0,
            depth >= 1,
            d == (depth - 1) as nat,
            spec_perft(m0, depth as nat) <= i64::MAX ==> nodes + spec_perft_sum(
                m0,
                moves@,
                i as int,
                d,
            ) == spec_perft_sum(m0, moves@, 0, d),
        decreases n - i,
    {
        let mv = moves.get(i);
        if pos.move_applies(mv) {
            proof {
                lemma_make_undo(m0, mv);
            }
            pos.make_move(mv);
            let sub = perft_rec(pos, depth - 1);
            pos.undo_move(mv);
            nodes = sat_add_i64(nodes, sub);
        }
        i = i + 1;
    }
    nodes
}

/// Counts the leaves of the legal move tree to the given depth: exactly
/// `spec_perft` as long as that count fits the result type.
pub fn perft(pos: Position, depth: usize) -> (r: i64)
    requires
        wf(pos@),
    ensures
        r >= 0,
        depth == 0 ==> r == 1,
        spec_perft(pos@, depth as nat) <= i64::MAX ==> r == spec_perft(pos@, depth as nat),
{
    let mut p = pos;
    perft_rec(&mut p, depth)
}

/// A perft that also tallies captures, en passants, castles, promotions,
/// checks and checkmates seen at the visited nodes. The node count is
/// exact; each tally never decreases and saturates instead of wrapping.
#[verifier::rlimit(60)]
#[verifier::spinoff_prover]
pub fn perft_complete(
    pos: Position,
    depth: usize,
    cps: &mut usize,
    eps: &mut usize,
    cast: &mut usize,
    proms: &mut usize,
    checks: &mut usize,
    mates: &mut usize,
) -> (r: i64)
    requires
        wf(pos@),
    ensures
        r >= 0,
        depth == 0 ==> r == 1,
        spec_perft(pos@, depth as nat) <= i64::MAX ==> r == spec_perft(pos@, depth as nat),
        *final(cps) >= *old(cps),
        *final(eps) >= *old(eps),
        *final(cast) >= *old(cast),
        *final(proms) >= *old(proms),
        *final(checks) >= *old(checks),
        *final(mates) >= *old(mates),
        *old(cps) + spec_tally(pos@, depth as nat).0 <= usize::MAX ==> *final(cps) == *old(cps)
            + spec_tally(pos@, depth as nat).0,
        *old(eps) + spec_tally(pos@, depth as nat).1 <= usize::MAX ==> *final(eps) == *old(eps)
            + spec_tally(pos@, depth as nat).1,
        *old(cast) + spec_tally(pos@, depth as nat).2 <= usize::MAX ==> *final(cast) == *old(cast)
            + spec_tally(pos@, depth as nat).2,
        *old(proms) + spec_tally(pos@, depth as nat).3 <= usize::MAX ==> *final(proms) == *old(
            proms,
        ) + spec_tally(pos@, depth as nat).3,
        *old(checks) + spec_tally(pos@, depth as nat).4 <= usize::MAX ==> *final(checks) == *old(
            checks,
        ) + spec_tally(pos@, depth as nat).4,
        *old(mates) + spec_tally(pos@, depth as nat).5 <= usize::MAX ==> *final(mates) == *old(
            mates,
        ) + spec_tally(pos@, depth as nat).5,
    decreases depth,
{
    if depth == 0 {
        return 1;
    }
    let mut p = pos;
    let ghost m0 = pos@;
    let ghost d = (depth - 1) as nat;
    let ghost tt = spec_tally(m0, depth as nat);
    let moves = p.legal();
    *cps = sat_add_usize(*cps, moves.count_captures());
    *eps = sat_add_usize(*eps, moves.count_enpassants());
    *cast = sat_add_usize(*cast, moves.count_castles());
    *proms = sat_add_usize(*proms, moves.count_promotions());
    if p.in_check() {
        *checks = sat_add_usize(*checks, 1);
        if moves.count() == 0 {
            *mates = sat_add_usize(*mates, 1);
        }
    }
    let mut nodes: i64 = 0;
    let n = moves.count();
    let mut i: usize = 0;
    while i < n
        invariant
            wf(pos@),
            p@ == pos@,
            m0 == pos@,
            moves.wf(),
            moves@ == spec_legal(m0),
            n == moves@.len(),
            i <= n,
            nodes >= 0,
            depth >= 1,
            d == (depth - 1) as nat,
            spec_perft(m0, depth as nat) <= i64::MAX ==> nodes + spec_perft_sum(
                m0,
                moves@,
                i as int,
                d,
            ) == spec_perft_sum(m0, moves@, 0, d),
            *cps >= *old(cps),
            *eps >= *old(eps),
            *cast >= *old(cast),
            *proms >= *old(proms),
            *checks >= *old(checks),
            *mates >= *old(mates),
            tt == spec_tally(m0, depth as nat),
            *old(cps) + tt.0 <= usize::MAX ==> *cps + spec_tally_sum(m0, moves@, i as int, d).0
                == *old(cps) + tt.0,
            *old(eps) + tt.1 <= usize::MAX ==> *eps + spec_tally_sum(m0, moves@, i as int, d).1
                == *old(eps) + tt.1,
            *old(cast) + tt.2 <= usize::MAX ==> *cast + spec_tally_sum(m0, moves@, i as int, d).2
                == *old(cast) + tt.2,
            *old(proms) + tt.3 <= usize::MAX ==> *proms + spec_tally_sum(m0, moves@, i as int, d).3
                == *old(proms) + tt.3,
            *old(checks) + tt.4 <= usize::MAX ==> *checks + spec_tally_sum(
                m0,
                moves@,
                i as int,
                d,
            ).4 == *old(checks) + tt.4,
            *old(mates) + tt.5 <= usize::MAX ==> *mates + spec_tally_sum(m0, moves@, i as int, d).5
                == *old(mates) + tt.5,
        decreases n - i,
    {
        let mv = moves.get(i);
        if p.move_applies(mv) {
            proof {
                lemma_make_undo(m0, mv);
            }
            p.make_move(mv);
            let sub = perft_complete(p, depth - 1, cps, eps, cast, proms, checks, mates);
            p.undo_move(mv);
            nodes = sat_add_i64(nodes, sub);
        }
        i = i + 1;
    }
    nodes
}

} // verus!
