//! Bit-level primitives on 64-bit board masks: single-bit tests, lowest-set-bit
//! isolation and removal, population count and trailing-zero scans.

use vstd::prelude::*;

verus! {

/// True when bit `s` of `bb` is set. Bit 0 is the least significant bit.
pub open spec fn bb_bit(bb: u64, s: u64) -> bool {
    (bb >> s) & 1u64 == 1u64
}

/// Number of set bits of `bb`.
pub open spec fn pcount(bb: u64) -> nat
    decreases bb,
{
    if bb == 0 {
        0
    } else {
        ((bb & 1u64) + pcount(bb / 2)) as nat
    }
}

/// Population count never exceeds the counted value itself.
pub proof fn lemma_pcount_bound(bb: u64)
    ensures
        pcount(bb) <= bb,
    decreases bb,
{
    if bb != 0 {
        lemma_pcount_bound(bb / 2);
        assert(bb & 1u64 == bb % 2) by (bit_vector);
    }
}

/// Exclusive or commutes, associates, cancels itself and keeps zero.
pub proof fn lemma_xor_shuffle(a: u64, b: u64, c: u64)
    by (bit_vector)
    ensures
        (a ^ b) == (b ^ a),
        ((a ^ b) ^ c) == (a ^ (b ^ c)),
        ((a ^ b) ^ b) == a,
        a ^ a == 0u64,
        a ^ 0u64 == a,
{
}

/// The zero mask has no bits, toggling one bit of a mask changes that bit
/// alone, and disjoint masks never share a bit.
pub proof fn lemma_mask_edit()
    by (bit_vector)
    ensures
        0u64 & 1 == 0,
        0u64 & 0u64 == 0u64,
        forall|k: u64| #[trigger] bb_bit(0u64, k) == false,
        forall|bb: u64, s: u64, k: u64|
            s < 64 && k < 64 && k != s ==> #[trigger] bb_bit((bb ^ (1u64 << s)), k) == bb_bit(
                bb,
                k,
            ),
        forall|bb: u64, s: u64|
            s < 64 ==> #[trigger] bb_bit((bb ^ (1u64 << s)), s) == !bb_bit(bb, s),
        forall|bb: u64, ob: u64, s: u64|
            bb_bit(bb, s) && ob & bb == 0 && s < 64 ==> !bb_bit(ob, s),
        forall|bb: u64, s: u64| s < 64 ==> (((bb & (1u64 << s)) != 0) == bb_bit(bb, s)),
        forall|bb: u64, s: u64| s < 64 ==> !bb_bit((bb & !(1u64 << s)), s),
{
}

/// Counts the set bits of `x`.
pub fn popcnt64(x: u64) -> (r: u64)
    ensures
        r == pcount(x),
{
    let mut b: u64 = x;
    let mut c: u64 = 0;
    proof {
        lemma_pcount_bound(x);
    }
    while b != 0
        invariant
            c + pcount(b) == pcount(x),
            pcount(x) <= x,
        decreases b,
    {
        c = c + (b & 1u64);
        assert(b & 1u64 == b % 2) by (bit_vector);
        b = b / 2;
    }
    c
}

/// Index of the lowest set bit of `x`; 64 when `x` is zero.
pub fn bit_scan64(x: u64) -> (r: usize)
    ensures
        r == vstd::std_specs::bits::u64_trailing_zeros(x),
        x == 0 ==> r == 64,
        x != 0 ==> r < 64 && bb_bit(x, r as u64) && (forall|j: u64|
            j < r ==> !bb_bit(x, j)),
{
    broadcast use vstd::std_specs::bits::axiom_u64_trailing_zeros;

    let t = x.trailing_zeros();
    t as usize
}

/// Isolates the lowest set bit of `x`; zero when `x` is zero.
pub fn lsb64(x: u64) -> (r: u64)
    ensures
        x == 0 ==> r == 0,
        x != 0 ==> exists|s: u64|
            s < 64 && r == 1u64 << s && bb_bit(x, s) && (forall|j: u64|
                j < s ==> !bb_bit(x, j)),
{
    if x == 0 {
        0
    } else {
        let s = bit_scan64(x);
        let r = 1u64 << (s as u64);
        proof {
            let sg = s as u64;
            assert(sg < 64 && r == 1u64 << sg && bb_bit(x, sg) && (forall|j: u64|
                j < sg ==> !bb_bit(x, j)));
        }
        r
    }
}

/// Clears the lowest set bit of `x`; zero stays zero.
pub fn poplsb64(x: u64) -> (r: u64)
    ensures
        x == 0 ==> r == 0,
        x != 0 ==> r == (x & ((x - 1) as u64)) && r < x,
{
    if x == 0 {
        0
    } else {
        let r = x & (x - 1);
        assert(x != 0 ==> (x & ((x - 1) as u64)) < x) by (bit_vector);
        r
    }
}

/// Population count never exceeds the width of the word.
pub proof fn lemma_pcount_64(bb: u64)
    ensures
        pcount(bb) <= 64,
{
    vstd::arithmetic::power2::lemma2_to64();
    vstd::arithmetic::power2::lemma2_to64_rest();
    lemma_pcount_width(bb, 64);
}

/// A value below two to the `w` has at most `w` set bits.
proof fn lemma_pcount_width(bb: u64, w: nat)
    requires
        (bb as int) < vstd::arithmetic::power2::pow2(w),
    ensures
        pcount(bb) <= w,
    decreases w,
{
    vstd::arithmetic::power2::lemma_pow2_pos(w);
    if w == 0 {
        assert(vstd::arithmetic::power2::pow2(0) == 1) by {
            vstd::arithmetic::power2::lemma2_to64();
        }
    } else {
        assert(vstd::arithmetic::power2::pow2(w) == 2 * vstd::arithmetic::power2::pow2(
            (w - 1) as nat,
        )) by {
            vstd::arithmetic::power2::lemma_pow2_unfold(w);
        }
        lemma_pcount_width(bb / 2, (w - 1) as nat);
        assert(bb & 1u64 <= 1) by (bit_vector);
        if bb == 0 {
        }
    }
}

/// Bit helpers exposed as methods on the board-mask type.
pub trait BitHelpers {
    type Item;

    /// Extracts the lowest set isolated bit.
    fn get_lsb(&self) -> Self::Item;

    /// Resets the lowest set bit.
    fn pop_lsb(&self) -> Self::Item;

    /// Counts the number of set bits.
    fn bit_count(&self) -> usize;

    /// Gets an index of the first set bit by counting trailing zero bits.
    fn bit_scan(&self) -> usize;

    /// Offsets a number to the left as White or to the right as Black.
    fn offset(&self, offset: usize, color: usize) -> Self::Item;
}

impl BitHelpers for u64 {
    type Item = u64;

    fn get_lsb(&self) -> u64 {
        lsb64(*self)
    }

    fn pop_lsb(&self) -> u64 {
        poplsb64(*self)
    }

    fn bit_count(&self) -> usize {
        let c = popcnt64(*self);
        proof {
            lemma_pcount_64(*self);
        }
        c as usize
    }

    fn bit_scan(&self) -> usize {
        bit_scan64(*self)
    }

    fn offset(&self, offset: usize, color: usize) -> u64 {
        if offset >= 64 {
            0
        } else if color == 0 {
            *self << (offset as u64)
        } else {
            *self >> (offset as u64)
        }
    }
}

} // verus!
