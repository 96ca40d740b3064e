//! Rounding offsets up to power-of-two boundaries.
//!
//! The arithmetic is stated over mathematical integers ([`align_up_spec`]) and
//! computed with the usual mask trick ([`align_up`]); the two are proved equal
//! for every power-of-two alignment.
use vstd::arithmetic::div_mod::{
    lemma_fundamental_div_mod, lemma_mod_bound, lemma_mod_multiples_basic,
    lemma_mod_multiples_vanish,
};
use vstd::arithmetic::power2::{
    lemma2_to64, lemma2_to64_rest, lemma_pow2_adds, lemma_pow2_pos, lemma_pow2_strictly_increases,
    lemma_pow2_unfold, pow2,
};
use vstd::bits::{lemma_usize_low_bits_mask_is_mod, low_bits_mask};
use vstd::prelude::*;

verus! {

/// Whether `n` is a power of two: a positive number with a single bit set.
pub open spec fn is_power_of_two(n: usize) -> bool {
    n > 0 && n & ((n - 1) as usize) == 0
}

/// `offset` rounded up to a multiple of `align`: the smallest multiple of
/// `align` that is not below `offset` (see [`lemma_align_up_is_multiple`],
/// [`lemma_align_up_bounds`] and [`lemma_align_up_is_least`]).
pub open spec fn align_up_spec(offset: int, align: int) -> int
    recommends
        align > 0,
{
    ((offset + align - 1) / align) * align
}

/// The rounded offset is a multiple of the alignment.
pub proof fn lemma_align_up_is_multiple(offset: int, align: int)
    requires
        align > 0,
    ensures
        align_up_spec(offset, align) % align == 0,
{
    lemma_mod_multiples_basic((offset + align - 1) / align, align);
}

/// Rounding up never moves an offset down, and moves it up by less than one
/// alignment step.
pub proof fn lemma_align_up_bounds(offset: int, align: int)
    requires
        align > 0,
    ensures
        offset <= align_up_spec(offset, align) < offset + align,
{
    let y = offset + align - 1;
    lemma_fundamental_div_mod(y, align);
    lemma_mod_bound(y, align);
    assert(align * (y / align) == (y / align) * align) by (nonlinear_arith);
}

/// No multiple of the alignment lies between an offset and its rounding.
pub proof fn lemma_align_up_is_least(offset: int, align: int, factor: int)
    requires
        align > 0,
        offset <= factor * align,
    ensures
        align_up_spec(offset, align) <= factor * align,
{
    let q = (offset + align - 1) / align;
    lemma_align_up_bounds(offset, align);
    assert(q * align < offset + align);
    assert(q <= factor) by (nonlinear_arith)
        requires
            align > 0,
            q * align < offset + align,
            offset <= factor * align,
    ;
    assert(q * align <= factor * align) by (nonlinear_arith)
        requires
            align > 0,
            q <= factor,
    ;
}

/// An offset that is already a multiple of the alignment is its own rounding.
pub proof fn lemma_align_up_of_multiple(offset: int, align: int)
    requires
        align > 0,
        offset % align == 0,
    ensures
        align_up_spec(offset, align) == offset,
{
    lemma_fundamental_div_mod(offset, align);
    let factor = offset / align;
    assert(offset == factor * align) by (nonlinear_arith)
        requires
            offset == align * factor + 0,
    ;
    lemma_align_up_is_least(offset, align, factor);
    lemma_align_up_bounds(offset, align);
}

proof fn lemma_half_of_power_of_two(a: usize)
    by (bit_vector)
    requires
        a > 1,
        a & ((a - 1) as usize) == 0,
    ensures
        a / 2 > 0,
        (a / 2) & (((a / 2) - 1) as usize) == 0,
        a == 2 * (a / 2),
{
}

/// Every power of two in the sense of [`is_power_of_two`] is `2^k` for an
/// exponent `k` below the word size.
pub proof fn lemma_power_of_two_exponent(a: usize) -> (k: nat)
    requires
        is_power_of_two(a),
    ensures
        k < usize::BITS,
        a == pow2(k),
    decreases a,
{
    lemma2_to64();
    lemma2_to64_rest();
    if a == 1 {
        0
    } else {
        lemma_half_of_power_of_two(a);
        let half: usize = (a / 2) as usize;
        let j = lemma_power_of_two_exponent(half);
        lemma_pow2_unfold(j + 1);
        if j + 1 >= usize::BITS {
            if j + 1 > usize::BITS {
                lemma_pow2_strictly_increases(usize::BITS as nat, j + 1);
            }
            assert(false);
        }
        j + 1
    }
}

proof fn lemma_mask_splits(y: usize, m: usize)
    by (bit_vector)
    ensures
        (y & !m) + (y & m) == y,
{
}

/// Clearing the low bits below a power of two rounds down to a multiple of it.
proof fn lemma_mask_is_round_down(y: usize, a: usize)
    requires
        is_power_of_two(a),
    ensures
        (y & !((a - 1) as usize)) == (y as int / a as int) * a,
{
    let k = lemma_power_of_two_exponent(a);
    let m: usize = (a - 1) as usize;
    assert(low_bits_mask(k) == m);
    lemma_usize_low_bits_mask_is_mod(y, k);
    assert(y & m == y % a);
    lemma_mask_splits(y, m);
    lemma_fundamental_div_mod(y as int, a as int);
    assert(a as int * (y as int / a as int) == (y as int / a as int) * a) by (nonlinear_arith);
}

/// When `offset + align - 1` does not fit in a word, neither does the rounded
/// offset.
pub proof fn lemma_align_up_overflow(offset: usize, align: usize)
    requires
        is_power_of_two(align),
        offset + align - 1 > usize::MAX,
    ensures
        align_up_spec(offset as int, align as int) > usize::MAX,
{
    let k = lemma_power_of_two_exponent(align);
    let bits = usize::BITS as nat;
    let rest = (bits - k) as nat;
    lemma2_to64();
    lemma2_to64_rest();
    lemma_pow2_adds(k, rest);
    lemma_pow2_pos(rest);
    let word: int = pow2(bits) as int;
    assert(word == usize::MAX + 1);
    let a: int = align as int;
    let y: int = offset + align - 1;
    let d: int = y - word;
    let c: int = pow2(rest) as int;
    assert(word == a * c);
    lemma_mod_multiples_vanish(c, d, a);
    assert(y % a == d % a);
    lemma_mod_bound(d, a);
    lemma_fundamental_div_mod(d, a);
    assert(d % a <= d) by (nonlinear_arith)
        requires
            d >= 0,
            a > 0,
            d == a * (d / a) + d % a,
            0 <= d % a < a,
    ;
    lemma_fundamental_div_mod(y, a);
    assert(a * (y / a) == (y / a) * a) by (nonlinear_arith);
}

/// Rounds `address` up to the next multiple of `align` by adding `align - 1`
/// and clearing the low bits.
///
/// `align` must be a power of two, and `address + align - 1` must fit in a
/// word.
pub fn align_up(address: usize, align: usize) -> (aligned: usize)
    requires
        is_power_of_two(align),
        address + align - 1 <= usize::MAX,
    ensures
        aligned == align_up_spec(address as int, align as int),
{
    let top: usize = address + (align - 1);
    proof {
        lemma_mask_is_round_down(top, align);
    }
    top & !(align - 1)
}

} // verus!
