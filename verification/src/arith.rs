//! Arithmetic facts about powers of two and 128-bit machine operations that
//! back the width bookkeeping of the library.

use vstd::prelude::*;

use vstd::arithmetic::div_mod::{lemma_basic_div, lemma_div_non_zero, lemma_multiply_divide_lt};
use vstd::arithmetic::mul::{
    lemma_mul_inequality, lemma_mul_is_associative, lemma_mul_is_distributive_sub_other_way,
    lemma_mul_left_inequality,
};
use vstd::arithmetic::power2::{
    lemma2_to64, lemma_pow2_adds, lemma_pow2_pos, lemma_pow2_strictly_increases, pow2,
};

verus! {

/// The capacity bound: `2^128` as a concrete number, one past `u128::MAX`.
pub(crate) proof fn lemma_pow2_128()
    ensures
        pow2(128) == 0x100000000000000000000000000000000,
{
    lemma_pow2_adds(64, 64);
    lemma2_to64();
}

/// Powers of two are monotone (in the non-strict sense).
pub(crate) proof fn lemma_pow2_le(e1: nat, e2: nat)
    requires
        e1 <= e2,
    ensures
        pow2(e1) <= pow2(e2),
{
    if e1 < e2 {
        lemma_pow2_strictly_increases(e1, e2);
    }
}

/// Dividing by `2^width` yields zero exactly when the dividend is below
/// `2^width` — the arithmetic form of the fits-check.
pub(crate) proof fn lemma_div_pow2_zero_iff_fits(data: u128, width: nat)
    ensures
        (data as nat) / pow2(width) == 0 <==> (data as nat) < pow2(width),
{
    lemma_pow2_pos(width);
    if (data as nat) < pow2(width) {
        lemma_basic_div(data as int, pow2(width) as int);
    }
    if (data as nat) >= pow2(width) {
        lemma_div_non_zero(data as int, pow2(width) as int);
    }
}

/// Shifting a `u128` left by `s` multiplies it by `2^s`, provided the
/// product stays representable.
pub(crate) proof fn lemma_shl_is_mul_u128(x: u128, s: u128)
    requires
        s < 128,
        x * pow2(s as nat) <= u128::MAX,
    ensures
        (x << s) == x * pow2(s as nat),
    decreases s,
{
    if s == 0 {
        assert(x << 0u128 == x) by (bit_vector);
        lemma2_to64();
        assert(x * pow2(0) == x);
    } else {
        let s1: u128 = (s - 1) as u128;
        lemma_pow2_adds(s1 as nat, 1);
        lemma2_to64();
        assert(x * pow2(s1 as nat) <= u128::MAX) by {
            if x > 0 {
                lemma_mul_left_inequality(x as int, pow2(s1 as nat) as int, pow2(s as nat) as int);
            }
        }
        lemma_shl_is_mul_u128(x, s1);
        assert(x << s == ((x << s1) * 2) as u128) by (bit_vector)
            requires
                0 < s < 128,
                s1 == s - 1,
        ;
        assert((x * pow2(s1 as nat)) * 2 == x * pow2(s as nat)) by {
            lemma_mul_is_associative(x as int, pow2(s1 as nat) as int, 2);
        }
    }
}

/// A value below `2^w`, multiplied by `2^s` with `w + s` within capacity,
/// stays below `2^(w + s)` and hence remains representable in a `u128`.
pub(crate) proof fn lemma_mul_pow2_bound(v: u128, w: nat, s: nat)
    requires
        (v as nat) < pow2(w),
        w + s <= 128,
    ensures
        v * pow2(s) < pow2(w + s),
        v * pow2(s) <= u128::MAX,
{
    lemma_pow2_pos(s);
    lemma_mul_inequality(v as int, pow2(w) - 1, pow2(s) as int);
    lemma_mul_is_distributive_sub_other_way(pow2(s) as int, pow2(w) as int, 1);
    lemma_pow2_adds(w, s);
    lemma_pow2_le(w + s, 128);
    lemma_pow2_128();
}

/// For widths within the storage cell, `2^w` is the machine shift `1 << w`.
pub(crate) proof fn lemma_pow2_is_shl1(w: nat)
    requires
        w < 128,
    ensures
        pow2(w) == (1u128 << (w as u128)) as nat,
{
    lemma_pow2_strictly_increases(w, 128);
    lemma_pow2_128();
    lemma_shl_is_mul_u128(1u128, w as u128);
}

/// Bitwise OR cannot produce more significant bits than its operands have:
/// two values below `2^w` have their OR below `2^w` as well.
pub(crate) proof fn lemma_or_bound(x: u128, y: u128, w: nat)
    requires
        w <= 128,
        (x as nat) < pow2(w),
        (y as nat) < pow2(w),
    ensures
        ((x | y) as nat) < pow2(w),
{
    if w == 128 {
        lemma_pow2_128();
    } else {
        lemma_pow2_is_shl1(w);
        let k: u128 = w as u128;
        assert(x | y < 1u128 << k) by (bit_vector)
            requires
                x < 1u128 << k,
                y < 1u128 << k,
                k < 128,
        ;
    }
}

/// Bitwise XOR cannot produce more significant bits than its operands have.
pub(crate) proof fn lemma_xor_bound(x: u128, y: u128, w: nat)
    requires
        w <= 128,
        (x as nat) < pow2(w),
        (y as nat) < pow2(w),
    ensures
        ((x ^ y) as nat) < pow2(w),
{
    if w == 128 {
        lemma_pow2_128();
    } else {
        lemma_pow2_is_shl1(w);
        let k: u128 = w as u128;
        assert(x ^ y < 1u128 << k) by (bit_vector)
            requires
                x < 1u128 << k,
                y < 1u128 << k,
                k < 128,
        ;
    }
}

/// Bitwise AND can only clear bits: the result is bounded by both operands.
pub(crate) proof fn lemma_and_bound(x: u128, y: u128)
    ensures
        (x & y) <= x,
        (x & y) <= y,
{
    assert(x & y <= x) by (bit_vector);
    assert(x & y <= y) by (bit_vector);
}

/// A value below `2^w`, divided by `2^s` with `s <= w`, falls below
/// `2^(w - s)`.
pub(crate) proof fn lemma_div_pow2_bound(v: u128, w: nat, s: nat)
    requires
        (v as nat) < pow2(w),
        s <= w,
    ensures
        (v as nat) / pow2(s) < pow2((w - s) as nat),
{
    lemma_pow2_pos(s);
    lemma_pow2_adds(s, (w - s) as nat);
    lemma_multiply_divide_lt(v as int, pow2(s) as int, pow2((w - s) as nat) as int);
}

} // verus!
