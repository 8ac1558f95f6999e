//! Rounding addresses to an alignment, and the power-of-two test that the
//! mask technique rests on.

use vstd::arithmetic::div_mod::{
    lemma_div_is_ordered, lemma_fundamental_div_mod, lemma_fundamental_div_mod_converse,
    lemma_mod_breakdown, lemma_mod_decreases, lemma_mod_multiples_basic,
};
use vstd::arithmetic::mul::{lemma_mul_inequality, lemma_mul_is_commutative};
use vstd::arithmetic::power2::is_pow2;
use vstd::prelude::*;

verus! {

/// Whether `addr` is a multiple of `align`.
pub open spec fn is_aligned(addr: int, align: int) -> bool {
    addr % align == 0
}

/// `pos` rounded down to a multiple of `align`.
pub open spec fn aligned_down(pos: int, align: int) -> int {
    pos - pos % align
}

/// `pos` rounded up to a multiple of `align`.
pub open spec fn aligned_up(pos: int, align: int) -> int {
    aligned_down(pos + align - 1, align)
}

/// Rounding down gives the greatest multiple of `align` that does not exceed
/// `pos`: it is a multiple, it is at most `pos`, and the next multiple lies
/// above `pos`.
pub proof fn lemma_aligned_down(pos: int, align: int)
    requires
        align > 0,
    ensures
        is_aligned(aligned_down(pos, align), align),
        aligned_down(pos, align) <= pos < aligned_down(pos, align) + align,
{
    lemma_fundamental_div_mod(pos, align);
    lemma_mul_is_commutative(align, pos / align);
    lemma_mod_multiples_basic(pos / align, align);
}

/// Rounding up gives the least multiple of `align` that is not below `pos`.
pub proof fn lemma_aligned_up(pos: int, align: int)
    requires
        align > 0,
    ensures
        is_aligned(aligned_up(pos, align), align),
        pos <= aligned_up(pos, align) < pos + align,
{
    lemma_aligned_down(pos + align - 1, align);
}

/// No multiple of `align` lies strictly between the rounded value and `pos`.
pub proof fn lemma_aligned_down_is_greatest(pos: int, align: int, other: int)
    requires
        align > 0,
        is_aligned(other, align),
        other <= pos,
    ensures
        other <= aligned_down(pos, align),
{
    lemma_fundamental_div_mod(pos, align);
    lemma_fundamental_div_mod(other, align);
    lemma_div_is_ordered(other, pos, align);
    lemma_mul_inequality(other / align, pos / align, align);
    lemma_mul_is_commutative(align, pos / align);
    lemma_mul_is_commutative(align, other / align);
}

/// An address that is already aligned is left where it is, in both directions.
pub proof fn lemma_aligned_is_fixed(pos: int, align: int)
    requires
        align > 0,
        is_aligned(pos, align),
    ensures
        aligned_down(pos, align) == pos,
        aligned_up(pos, align) == pos,
{
    lemma_fundamental_div_mod(pos, align);
    lemma_mul_is_commutative(align, pos / align);
    lemma_fundamental_div_mod_converse(pos + align - 1, align, pos / align, align - 1);
}

/// For a power of two, the remainder is what the low bits hold.
proof fn lemma_low_bits_are_remainder(x: usize, align: usize)
    requires
        is_pow2(align as int),
    ensures
        x & ((align - 1) as usize) == x % align,
    decreases align,
{
    reveal(is_pow2);
    if align == 1 {
        assert(x & 0 == 0) by (bit_vector);
    } else {
        let half: usize = align / 2;
        let xh: usize = x / 2;
        lemma_low_bits_are_remainder(xh, half);
        assert(x & ((align - 1) as usize) == 2 * ((x / 2) & ((align / 2 - 1) as usize)) + x % 2)
            by (bit_vector)
            requires
                align >= 2,
                align % 2 == 0,
        ;
        lemma_mod_breakdown(x as int, 2, half as int);
        assert(2 * (half as int) == align as int);
    }
}

/// A positive number is a power of two exactly when it shares no bit with its
/// predecessor.
proof fn lemma_single_bit_is_pow2(x: usize)
    requires
        x > 0,
    ensures
        (x & ((x - 1) as usize)) == 0 <==> is_pow2(x as int),
    decreases x,
{
    reveal(is_pow2);
    if x == 1 {
        assert(1usize & 0usize == 0) by (bit_vector);
    } else {
        let half: usize = x / 2;
        lemma_single_bit_is_pow2(half);
        assert((x & ((x - 1) as usize)) == 0 <==> (x % 2 == 0 && ((x / 2) & ((x / 2 - 1) as usize))
            == 0)) by (bit_vector)
            requires
                x > 1,
        ;
    }
}

/// Whether `x` is a power of two.
pub fn is_power_of_two(x: usize) -> (r: bool)
    ensures
        r == is_pow2(x as int),
{
    if x == 0 {
        proof {
            reveal(is_pow2);
        }
        false
    } else {
        proof {
            lemma_single_bit_is_pow2(x);
        }
        x & (x - 1) == 0
    }
}

/// A power of two that fits the address width divides the size of the address
/// space.
proof fn lemma_pow2_divides_address_space(align: usize)
    requires
        is_pow2(align as int),
    ensures
        is_aligned(usize::MAX + 1, align as int),
{
    reveal(is_pow2);
    lemma_low_bits_are_remainder(usize::MAX, align);
    let top: usize = usize::MAX;
    let ones: usize = !0usize;
    assert(top <= ones) by (bit_vector)
        requires
            ones == !0usize,
    ;
    assert(ones & ((align - 1) as usize) == align - 1) by (bit_vector)
        requires
            ones == !0usize,
            align > 0,
    ;
    lemma_fundamental_div_mod(usize::MAX as int, align as int);
    let q = usize::MAX as int / (align as int);
    assert(usize::MAX + 1 == (q + 1) * align) by (nonlinear_arith)
        requires
            usize::MAX == align * q + (align - 1),
    ;
    lemma_mod_multiples_basic(q + 1, align as int);
}

/// Clears the low bits of `pos`, which for a power of two rounds it down.
fn mask_down(pos: usize, align: usize) -> (r: usize)
    requires
        is_pow2(align as int),
    ensures
        r == aligned_down(pos as int, align as int),
{
    proof {
        reveal(is_pow2);
        lemma_low_bits_are_remainder(pos, align);
        assert(pos & !((align - 1) as usize) == pos - (pos & ((align - 1) as usize)))
            by (bit_vector);
    }
    pos & !(align - 1)
}

/// Rounds `pos` down to a multiple of `align`: by mask where `align` is a
/// power of two, by taking off the remainder where it is not.
pub fn align_down(pos: usize, align: usize) -> (r: usize)
    requires
        align > 0,
    ensures
        r == aligned_down(pos as int, align as int),
{
    if is_power_of_two(align) {
        mask_down(pos, align)
    } else {
        proof {
            lemma_mod_decreases(pos as nat, align as nat);
        }
        pos - pos % align
    }
}

/// Rounds `pos` up to a multiple of the power of two `align`, or returns
/// `None` where that multiple lies beyond the address space.
pub fn align_up(pos: usize, align: usize) -> (r: Option<usize>)
    requires
        is_pow2(align as int),
    ensures
        match r {
            Some(v) => v == aligned_up(pos as int, align as int),
            None => aligned_up(pos as int, align as int) > usize::MAX,
        },
{
    proof {
        reveal(is_pow2);
    }
    match pos.checked_add(align - 1) {
        Some(top) => Some(mask_down(top, align)),
        None => {
            proof {
                lemma_pow2_divides_address_space(align);
                lemma_aligned_down_is_greatest(pos + align - 1, align as int, usize::MAX + 1);
            }
            None
        },
    }
}

} // verus!
