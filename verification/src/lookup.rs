//! Attack masks and ray lookups: knight, king and pawn attack sets, rank,
//! file and diagonal rays, occupancy-aware sliding attacks, castling area
//! masks and the Zobrist key schedule.

use vstd::prelude::*;

use crate::types::{spec_opposite, spec_shift, BitBoard, Direction};

verus! {

/// The mask holding exactly the one square `s`.
pub open spec fn spec_sq_bb(s: usize) -> u64 {
    1u64 << (s as u64)
}

/// The mask holding exactly the one square `s`.
pub fn sq_bb(s: usize) -> (r: u64)
    requires
        s < 64,
    ensures
        r == spec_sq_bb(s),
{
    1u64 << (s as u64)
}

/// Attack set of a knight standing on the squares of `b`.
pub open spec fn spec_knight_att(b: u64) -> u64 {
    ((b << 17) & !0x101010101010101u64) | ((b << 15) & !0x8080808080808080u64) | ((b << 10)
        & !0x303030303030303u64) | ((b << 6) & !0xc0c0c0c0c0c0c0c0u64) | ((b >> 6)
        & !0x303030303030303u64) | ((b >> 10) & !0xc0c0c0c0c0c0c0c0u64) | ((b >> 15)
        & !0x101010101010101u64) | ((b >> 17) & !0x8080808080808080u64)
}

/// Attack set of a knight standing on square `s`.
pub open spec fn spec_knight_mask(s: usize) -> u64 {
    spec_knight_att(spec_sq_bb(s))
}

/// Attack set of a knight standing on square `s`.
pub fn knight_mask(s: usize) -> (r: u64)
    requires
        s < 64,
    ensures
        r == spec_knight_mask(s),
{
    let b = sq_bb(s);
    ((b << 17) & !0x101010101010101u64) | ((b << 15) & !0x8080808080808080u64) | ((b << 10)
        & !0x303030303030303u64) | ((b << 6) & !0xc0c0c0c0c0c0c0c0u64) | ((b >> 6)
        & !0x303030303030303u64) | ((b >> 10) & !0xc0c0c0c0c0c0c0c0u64) | ((b >> 15)
        & !0x101010101010101u64) | ((b >> 17) & !0x8080808080808080u64)
}

/// Attack set of a king standing on the squares of `b`.
pub open spec fn spec_king_att(b: u64) -> u64 {
    spec_shift(b, Direction::North) | spec_shift(b, Direction::South) | spec_shift(
        b,
        Direction::East,
    ) | spec_shift(b, Direction::West) | spec_shift(b, Direction::NorthEast) | spec_shift(
        b,
        Direction::NorthWest,
    ) | spec_shift(b, Direction::SouthEast) | spec_shift(b, Direction::SouthWest)
}

/// Attack set of a king standing on square `s`.
pub open spec fn spec_king_mask(s: usize) -> u64 {
    spec_king_att(spec_sq_bb(s))
}

/// Attack set of a king standing on square `s`.
pub fn king_mask(s: usize) -> (r: u64)
    requires
        s < 64,
    ensures
        r == spec_king_mask(s),
{
    let b = sq_bb(s);
    BitBoard::shift_dir(b, Direction::North) | BitBoard::shift_dir(b, Direction::South)
        | BitBoard::shift_dir(b, Direction::East) | BitBoard::shift_dir(b, Direction::West)
        | BitBoard::shift_dir(b, Direction::NorthEast) | BitBoard::shift_dir(
        b,
        Direction::NorthWest,
    ) | BitBoard::shift_dir(b, Direction::SouthEast) | BitBoard::shift_dir(
        b,
        Direction::SouthWest,
    )
}

/// Capture targets of a pawn of `color` standing on the squares of `b`.
pub open spec fn spec_pawn_att(color: usize, b: u64) -> u64 {
    if color == 0 {
        spec_shift(b, Direction::NorthEast) | spec_shift(b, Direction::NorthWest)
    } else {
        spec_shift(b, Direction::SouthEast) | spec_shift(b, Direction::SouthWest)
    }
}

/// Capture targets of a pawn of `color` standing on square `s`.
pub open spec fn spec_pawn_attacks(color: usize, s: usize) -> u64 {
    spec_pawn_att(color, spec_sq_bb(s))
}

/// Capture targets of a pawn of `color` standing on square `s`.
pub fn pawn_attacks(color: usize, s: usize) -> (r: u64)
    requires
        s < 64,
    ensures
        r == spec_pawn_attacks(color, s),
{
    let b = sq_bb(s);
    if color == 0 {
        BitBoard::shift_dir(b, Direction::NorthEast) | BitBoard::shift_dir(
            b,
            Direction::NorthWest,
        )
    } else {
        BitBoard::shift_dir(b, Direction::SouthEast) | BitBoard::shift_dir(
            b,
            Direction::SouthWest,
        )
    }
}

/// The whole rank through square `s`.
pub open spec fn spec_rank_bb(s: usize) -> u64 {
    0xffu64 << (((s / 8) * 8) as u64)
}

/// The whole file through square `s`.
pub open spec fn spec_file_bb(s: usize) -> u64 {
    0x101010101010101u64 << ((s % 8) as u64)
}

/// Rank and file through `s`, including `s` itself.
pub open spec fn spec_hv_mask_2(s: usize) -> u64 {
    spec_rank_bb(s) | spec_file_bb(s)
}

/// Rank and file through `s`, excluding `s` itself.
pub open spec fn spec_hv_mask(s: usize) -> u64 {
    spec_hv_mask_2(s) & !spec_sq_bb(s)
}

/// Rank and file through `s`, including `s` itself.
pub fn hv_mask_2(s: usize) -> (r: u64)
    requires
        s < 64,
    ensures
        r == spec_hv_mask_2(s),
{
    (0xffu64 << (((s / 8) * 8) as u64)) | (0x101010101010101u64 << ((s % 8) as u64))
}

/// Rank and file through `s`, excluding `s` itself.
pub fn hv_mask(s: usize) -> (r: u64)
    requires
        s < 64,
    ensures
        r == spec_hv_mask(s),
{
    hv_mask_2(s) & !sq_bb(s)
}

/// The squares reached from `b` by walking `n` more steps in a direction
/// over an empty board.
pub open spec fn spec_ray(b: u64, dir: Direction, n: nat) -> u64
    decreases n,
{
    if n == 0 {
        0
    } else {
        let x = spec_shift(b, dir);
        x | spec_ray(x, dir, (n - 1) as nat)
    }
}

/// The squares reached from `b` by walking `n` more steps in a direction
/// over an empty board.
pub fn ray(b: u64, dir: Direction, n: u64) -> (r: u64)
    ensures
        r == spec_ray(b, dir, n as nat),
    decreases n,
{
    if n == 0 {
        0
    } else {
        let x = BitBoard::shift_dir(b, dir);
        x | ray(x, dir, n - 1)
    }
}

/// Both diagonals through `s`, excluding `s` itself.
pub open spec fn spec_d12_mask(s: usize) -> u64 {
    spec_ray(spec_sq_bb(s), Direction::NorthEast, 7) | spec_ray(
        spec_sq_bb(s),
        Direction::NorthWest,
        7,
    ) | spec_ray(spec_sq_bb(s), Direction::SouthEast, 7) | spec_ray(
        spec_sq_bb(s),
        Direction::SouthWest,
        7,
    )
}

/// Both diagonals through `s`, including `s` itself.
pub open spec fn spec_d12_mask_2(s: usize) -> u64 {
    spec_d12_mask(s) | spec_sq_bb(s)
}

/// Both diagonals through `s`, excluding `s` itself.
pub fn d12_mask(s: usize) -> (r: u64)
    requires
        s < 64,
    ensures
        r == spec_d12_mask(s),
{
    let b = sq_bb(s);
    ray(b, Direction::NorthEast, 7) | ray(b, Direction::NorthWest, 7) | ray(
        b,
        Direction::SouthEast,
        7,
    ) | ray(b, Direction::SouthWest, 7)
}

/// Both diagonals through `s`, including `s` itself.
pub fn d12_mask_2(s: usize) -> (r: u64)
    requires
        s < 64,
    ensures
        r == spec_d12_mask_2(s),
{
    d12_mask(s) | sq_bb(s)
}

/// The squares a slider on `b` attacks walking a direction for `n` more
/// steps: every square up to and including the first occupied one.
pub open spec fn spec_ray_occ(b: u64, occ: u64, dir: Direction, n: nat) -> u64
    decreases n,
{
    if n == 0 {
        0
    } else {
        let x = spec_shift(b, dir);
        if x & occ != 0 {
            x
        } else {
            x | spec_ray_occ(x, occ, dir, (n - 1) as nat)
        }
    }
}

/// The squares a slider on `b` attacks walking a direction for `n` more
/// steps given the occupancy `occ`.
pub fn ray_occ(b: u64, occ: u64, dir: Direction, n: u64) -> (r: u64)
    ensures
        r == spec_ray_occ(b, occ, dir, n as nat),
    decreases n,
{
    if n == 0 {
        0
    } else {
        let x = BitBoard::shift_dir(b, dir);
        if x & occ != 0 {
            x
        } else {
            x | ray_occ(x, occ, dir, n - 1)
        }
    }
}

/// Attack set of a rook-like slider on `s` given the occupancy `occ`.
pub open spec fn spec_hv_moves(s: usize, occ: u64) -> u64 {
    spec_ray_occ(spec_sq_bb(s), occ, Direction::North, 7) | spec_ray_occ(
        spec_sq_bb(s),
        occ,
        Direction::South,
        7,
    ) | spec_ray_occ(spec_sq_bb(s), occ, Direction::East, 7) | spec_ray_occ(
        spec_sq_bb(s),
        occ,
        Direction::West,
        7,
    )
}

/// Attack set of a rook-like slider on `s` given the occupancy `occ`.
pub fn hv_moves(s: usize, occ: u64) -> (r: u64)
    requires
        s < 64,
    ensures
        r == spec_hv_moves(s, occ),
{
    let b = sq_bb(s);
    ray_occ(b, occ, Direction::North, 7) | ray_occ(b, occ, Direction::South, 7) | ray_occ(
        b,
        occ,
        Direction::East,
        7,
    ) | ray_occ(b, occ, Direction::West, 7)
}

/// Attack set of a bishop-like slider on `s` given the occupancy `occ`.
pub open spec fn spec_d12_moves(s: usize, occ: u64) -> u64 {
    spec_ray_occ(spec_sq_bb(s), occ, Direction::NorthEast, 7) | spec_ray_occ(
        spec_sq_bb(s),
        occ,
        Direction::NorthWest,
        7,
    ) | spec_ray_occ(spec_sq_bb(s), occ, Direction::SouthEast, 7) | spec_ray_occ(
        spec_sq_bb(s),
        occ,
        Direction::SouthWest,
        7,
    )
}

/// Attack set of a bishop-like slider on `s` given the occupancy `occ`.
pub fn d12_moves(s: usize, occ: u64) -> (r: u64)
    requires
        s < 64,
    ensures
        r == spec_d12_moves(s, occ),
{
    let b = sq_bb(s);
    ray_occ(b, occ, Direction::NorthEast, 7) | ray_occ(b, occ, Direction::NorthWest, 7) | ray_occ(
        b,
        occ,
        Direction::SouthEast,
        7,
    ) | ray_occ(b, occ, Direction::SouthWest, 7)
}

/// The direction that leads from square `a` to square `b`, when the two
/// share a rank, file or diagonal.
pub open spec fn spec_dir_between(a: usize, b: usize) -> Option<Direction> {
    let af = a % 8;
    let ar = a / 8;
    let bf = b % 8;
    let br = b / 8;
    if a == b {
        None
    } else if ar == br {
        if bf > af {
            Some(Direction::East)
        } else {
            Some(Direction::West)
        }
    } else if af == bf {
        if br > ar {
            Some(Direction::North)
        } else {
            Some(Direction::South)
        }
    } else if br - ar == bf - af {
        if br > ar {
            Some(Direction::NorthEast)
        } else {
            Some(Direction::SouthWest)
        }
    } else if br - ar == af - bf {
        if br > ar {
            Some(Direction::NorthWest)
        } else {
            Some(Direction::SouthEast)
        }
    } else {
        None
    }
}

/// The direction that leads from square `a` to square `b`, when the two
/// share a rank, file or diagonal.
pub fn dir_between(a: usize, b: usize) -> (r: Option<Direction>)
    requires
        a < 64,
        b < 64,
    ensures
        r == spec_dir_between(a, b),
{
    let af = a % 8;
    let ar = a / 8;
    let bf = b % 8;
    let br = b / 8;
    if a == b {
        None
    } else if ar == br {
        if bf > af {
            Some(Direction::East)
        } else {
            Some(Direction::West)
        }
    } else if af == bf {
        if br > ar {
            Some(Direction::North)
        } else {
            Some(Direction::South)
        }
    } else if br >= ar && bf >= af && br - ar == bf - af {
        Some(Direction::NorthEast)
    } else if ar >= br && af >= bf && ar - br == af - bf {
        Some(Direction::SouthWest)
    } else if br >= ar && af >= bf && br - ar == af - bf {
        Some(Direction::NorthWest)
    } else if ar >= br && bf >= af && ar - br == bf - af {
        Some(Direction::SouthEast)
    } else {
        None
    }
}

/// The squares strictly between `cur` and the square of `target`, walking
/// `dir` for at most `n` more steps.
pub open spec fn spec_walk_between(cur: u64, target: u64, dir: Direction, n: nat) -> u64
    decreases n,
{
    if n == 0 {
        0
    } else {
        let x = spec_shift(cur, dir);
        if x == 0 || x == target {
            0
        } else {
            x | spec_walk_between(x, target, dir, (n - 1) as nat)
        }
    }
}

/// The squares strictly between `cur` and the square of `target`, walking
/// `dir` for at most `n` more steps.
pub fn walk_between(cur: u64, target: u64, dir: Direction, n: u64) -> (r: u64)
    ensures
        r == spec_walk_between(cur, target, dir, n as nat),
    decreases n,
{
    if n == 0 {
        0
    } else {
        let x = BitBoard::shift_dir(cur, dir);
        if x == 0 || x == target {
            0
        } else {
            x | walk_between(x, target, dir, n - 1)
        }
    }
}

/// Squares strictly between `a` and `b` when they share a rank, file or
/// diagonal; zero otherwise.
pub open spec fn spec_between(a: usize, b: usize) -> u64 {
    match spec_dir_between(a, b) {
        Some(d) => spec_walk_between(spec_sq_bb(a), spec_sq_bb(b), d, 7),
        None => 0,
    }
}

/// Squares strictly between `a` and `b` when they share a rank, file or
/// diagonal; zero otherwise.
pub fn between(a: usize, b: usize) -> (r: u64)
    requires
        a < 64,
        b < 64,
    ensures
        r == spec_between(a, b),
{
    match dir_between(a, b) {
        Some(d) => walk_between(sq_bb(a), sq_bb(b), d, 7),
        None => 0,
    }
}

/// The whole rank, file or diagonal through `a` and `b`; zero when the two
/// squares share none.
pub open spec fn spec_line(a: usize, b: usize) -> u64 {
    match spec_dir_between(a, b) {
        Some(d) => spec_ray(spec_sq_bb(a), d, 7) | spec_ray(spec_sq_bb(a), spec_opposite(d), 7)
            | spec_sq_bb(a),
        None => 0,
    }
}

/// The whole rank, file or diagonal through `a` and `b`; zero when the two
/// squares share none.
pub fn line(a: usize, b: usize) -> (r: u64)
    requires
        a < 64,
        b < 64,
    ensures
        r == spec_line(a, b),
{
    match dir_between(a, b) {
        Some(d) => ray(sq_bb(a), d, 7) | ray(sq_bb(a), d.opposite(), 7) | sq_bb(a),
        None => 0,
    }
}

/// Squares between king and short rook that must be empty and safe.
pub open spec fn spec_oo_blockers(color: usize) -> u64 {
    if color == 0 {
        0x60u64
    } else {
        0x6000000000000000u64
    }
}

/// Squares between king and short rook that must be empty and safe.
pub fn oo_blockers(color: usize) -> (r: u64)
    ensures
        r == spec_oo_blockers(color),
{
    if color == 0 {
        0x60u64
    } else {
        0x6000000000000000u64
    }
}

/// Squares between king and long rook that must be empty.
pub open spec fn spec_ooo_blockers(color: usize) -> u64 {
    if color == 0 {
        0xeu64
    } else {
        0xe00000000000000u64
    }
}

/// Squares between king and long rook that must be empty.
pub fn ooo_blockers(color: usize) -> (r: u64)
    ensures
        r == spec_ooo_blockers(color),
{
    if color == 0 {
        0xeu64
    } else {
        0xe00000000000000u64
    }
}

/// The long-castling squares that may be attacked without stopping the
/// castle: only the b-file square, which the king never crosses.
pub open spec fn spec_ooo_danger(color: usize) -> u64 {
    if color == 0 {
        0x2u64
    } else {
        0x200000000000000u64
    }
}

/// The long-castling squares that may be attacked without stopping the
/// castle.
pub fn ooo_danger(color: usize) -> (r: u64)
    ensures
        r == spec_ooo_danger(color),
{
    if color == 0 {
        0x2u64
    } else {
        0x200000000000000u64
    }
}

/// One mixing round of the key schedule: a 64-bit xorshift step.
pub open spec fn spec_zround(x: u64) -> u64 {
    let a = x ^ (x << 13);
    let b = a ^ (a >> 7);
    b ^ (b << 17)
}

/// Three mixing rounds, used to spread a small index over 64 bits.
pub open spec fn spec_zmix(x: u64) -> u64 {
    spec_zround(spec_zround(spec_zround(x)))
}

/// Three mixing rounds, used to spread a small index over 64 bits.
pub fn zmix(x: u64) -> (r: u64)
    ensures
        r == spec_zmix(x),
{
    let mut y = x;
    let mut i: usize = 0;
    while i < 3
        invariant
            i <= 3,
            i == 0 ==> y == x,
            i == 1 ==> y == spec_zround(x),
            i == 2 ==> y == spec_zround(spec_zround(x)),
            i == 3 ==> y == spec_zmix(x),
        decreases 3 - i,
    {
        let a = y ^ (y << 13);
        let b = a ^ (a >> 7);
        y = b ^ (b << 17);
        i = i + 1;
    }
    y
}

/// Zobrist key of a piece of a color on a square.
pub open spec fn spec_zobrist_piece(color: usize, piece: usize, s: usize) -> u64 {
    spec_zmix((1 + color * 384 + piece * 64 + s) as u64)
}

/// Zobrist key of a piece of a color on a square.
pub fn zobrist_piece(color: usize, piece: usize, s: usize) -> (r: u64)
    requires
        color < 2,
        piece < 6,
        s < 64,
    ensures
        r == spec_zobrist_piece(color, piece, s),
{
    zmix((1 + color * 384 + piece * 64 + s) as u64)
}

/// Zobrist key of an en-passant target square for the side to move.
pub open spec fn spec_zobrist_ep(color: usize, s: usize) -> u64 {
    spec_zmix((769 + color * 64 + s) as u64)
}

/// Zobrist key of an en-passant target square for the side to move.
pub fn zobrist_ep(color: usize, s: usize) -> (r: u64)
    requires
        color < 2,
        s < 64,
    ensures
        r == spec_zobrist_ep(color, s),
{
    zmix((769 + color * 64 + s) as u64)
}

/// Zobrist key of a castling right as seen by the side to move.
pub open spec fn spec_zobrist_castle(color: usize, right: usize) -> u64 {
    spec_zmix((897 + color * 4 + right) as u64)
}

/// Zobrist key of a castling right as seen by the side to move.
pub fn zobrist_castle(color: usize, right: usize) -> (r: u64)
    requires
        color < 2,
        right < 4,
    ensures
        r == spec_zobrist_castle(color, right),
{
    zmix((897 + color * 4 + right) as u64)
}

} // verus!
