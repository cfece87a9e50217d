//! Width-bounded unsigned integers.
//!
//! A [`MaxBits`] value is an unsigned integer stored in a fixed-capacity
//! 128-bit cell together with a ghost *declared width*: an upper bound, proved
//! at construction and preserved by every operation, on the number of
//! significant bits the stored value may use. The width is verification-time
//! data only — it occupies no space at runtime — and every operator derives
//! the width of its result from the widths of its operands, so that a chain of
//! shifts, masks and additions can be composed without any re-validation.
//!
//! The only runtime checks are the fits-check at construction ([`MaxBits::new`])
//! and at narrowing ([`MaxBits::narrow`]); all other width bookkeeping is
//! discharged statically by the verifier.

use vstd::prelude::*;

mod arith;

use vstd::arithmetic::power2::pow2;

verus! {

/// The capacity of the storage cell, and the largest declared width any
/// value can carry.
pub const MAX_WIDTH: u32 = 128;

/// A raw value fits a declared width when it uses no more than `width`
/// significant bits, i.e. it is strictly below `2^width`.
pub open spec fn fits(value: u128, width: nat) -> bool {
    (value as nat) < pow2(width)
}

/// The wider of two declared widths.
pub open spec fn width_max(w1: nat, w2: nat) -> nat {
    if w1 >= w2 {
        w1
    } else {
        w2
    }
}

/// The narrower of two declared widths.
pub open spec fn width_min(w1: nat, w2: nat) -> nat {
    if w1 <= w2 {
        w1
    } else {
        w2
    }
}

/// An unsigned integer bounded by a declared bit-width.
///
/// The width is ghost: it exists only for specification and proof, and the
/// runtime representation is exactly one `u128`.
#[derive(Clone, Copy)]
pub struct MaxBits {
    data: u128,
    width: Ghost<nat>,
}

impl MaxBits {
    /// The raw stored value.
    pub closed spec fn value(self) -> u128 {
        self.data
    }

    /// The declared width: the number of bits this value is guaranteed to
    /// fit in.
    pub closed spec fn width(self) -> nat {
        self.width@
    }

    /// Well-formedness: the declared width is within capacity and the stored
    /// value fits it. Established at construction, preserved by every
    /// operation, and never re-validated at runtime except by `narrow`.
    pub open spec fn wf(self) -> bool {
        self.width() <= MAX_WIDTH && fits(self.value(), self.width())
    }

    /// The runtime fits-check: does `data` use at most `width` significant
    /// bits? This is the only validation the library ever performs.
    fn fits(data: u128, width: u32) -> (b: bool)
        requires
            width <= MAX_WIDTH,
        ensures
            b == fits(data, width as nat),
    {
        if width == MAX_WIDTH {
            proof {
                arith::lemma_pow2_128();
            }
            true
        } else {
            proof {
                vstd::bits::lemma_u128_shr_is_div(data, width as u128);
                arith::lemma_div_pow2_zero_iff_fits(data, width as nat);
            }
            data >> (width as u128) == 0
        }
    }

    /// Construct a value of declared width `width` from a raw integer.
    /// Succeeds, yielding a well-formed value holding exactly `data`, if and
    /// only if `data` fits in `width` bits; never truncates.
    pub fn new(data: u128, width: u32) -> (r: Option<MaxBits>)
        requires
            width <= MAX_WIDTH,
        ensures
            r is Some <==> fits(data, width as nat),
            r matches Some(v) ==> v.wf() && v.value() == data && v.width() == width as nat,
    {
        if Self::fits(data, width) {
            Some(MaxBits { data, width: Ghost(width as nat) })
        } else {
            None
        }
    }

    /// Return the raw stored integer, discarding the width.
    pub fn into_inner(self) -> (r: u128)
        ensures
            r == self.value(),
    {
        self.data
    }

    /// Retag this value with a wider declared width. A pure reinterpretation:
    /// the stored bits are unchanged, and a value fitting `W` bits trivially
    /// fits any `W' >= W`, so no runtime check is needed and none is made.
    /// Callers must establish `self.width() <= width` statically.
    pub fn widen(self, width: u32) -> (r: MaxBits)
        requires
            self.wf(),
            self.width() <= width,
            width <= MAX_WIDTH,
        ensures
            r.wf(),
            r.value() == self.value(),
            r.width() == width as nat,
    {
        proof {
            arith::lemma_pow2_le(self.width(), width as nat);
        }
        MaxBits { data: self.data, width: Ghost(width as nat) }
    }

    /// Retag this value with a narrower declared width. Narrowing the tag
    /// does not shrink the data, so the fits-check runs again at the new
    /// width: the result is `Some` exactly when the stored value needs no
    /// more than `width` bits, and the bits themselves never change.
    /// Callers must establish `width <= self.width()` statically.
    pub fn narrow(self, width: u32) -> (r: Option<MaxBits>)
        requires
            self.wf(),
            width <= self.width(),
        ensures
            r is Some <==> fits(self.value(), width as nat),
            r matches Some(v) ==> v.wf() && v.value() == self.value() && v.width() == width as nat,
    {
        MaxBits::new(self.data, width)
    }

    /// Left shift by `s` positions. Shifting left can introduce up to `s` new
    /// significant bits, so the result's width grows by exactly `s`; callers
    /// must establish statically that the grown width stays within capacity,
    /// and no runtime check is made.
    pub fn shl(self, s: u32) -> (r: MaxBits)
        requires
            self.wf(),
            self.width() + s <= MAX_WIDTH,
        ensures
            r.wf(),
            r.width() == self.width() + s,
            r.value() == self.value() * pow2(s as nat),
    {
        let ghost w2: nat = (self.width() + s) as nat;
        if s == MAX_WIDTH {
            // The declared width must be zero here, so the stored value is
            // zero and the shift moves nothing.
            proof {
                vstd::arithmetic::power2::lemma2_to64();
                arith::lemma_pow2_128();
            }
            MaxBits { data: self.data, width: Ghost(w2) }
        } else {
            proof {
                arith::lemma_mul_pow2_bound(self.data, self.width(), s as nat);
                arith::lemma_shl_is_mul_u128(self.data, s as u128);
            }
            MaxBits { data: self.data << (s as u128), width: Ghost(w2) }
        }
    }

    /// Right shift by `s` positions. Shifting right can only discard
    /// significant bits, so the result's width shrinks by exactly `s`;
    /// callers must establish `s <= self.width()` statically, and no runtime
    /// check is made.
    pub fn shr(self, s: u32) -> (r: MaxBits)
        requires
            self.wf(),
            s <= self.width(),
        ensures
            r.wf(),
            r.width() == self.width() - s,
            r.value() == self.value() as nat / pow2(s as nat),
    {
        let ghost w2: nat = (self.width() - s) as nat;
        proof {
            arith::lemma_div_pow2_bound(self.data, self.width(), s as nat);
        }
        if s == MAX_WIDTH {
            // Every bit of the storage cell is discarded.
            proof {
                vstd::arithmetic::power2::lemma2_to64();
            }
            MaxBits { data: 0, width: Ghost(w2) }
        } else {
            proof {
                vstd::bits::lemma_u128_shr_is_div(self.data, s as u128);
            }
            MaxBits { data: self.data >> (s as u128), width: Ghost(w2) }
        }
    }

    /// Bitwise OR. Neither operand can contribute a significant bit above the
    /// wider of the two declared widths, so the result is tagged with that
    /// width, whatever the actual bit patterns are.
    pub fn bitor(self, rhs: MaxBits) -> (r: MaxBits)
        requires
            self.wf(),
            rhs.wf(),
        ensures
            r.wf(),
            r.width() == width_max(self.width(), rhs.width()),
            r.value() == self.value() | rhs.value(),
    {
        let ghost w2: nat = width_max(self.width(), rhs.width());
        proof {
            arith::lemma_pow2_le(self.width(), w2);
            arith::lemma_pow2_le(rhs.width(), w2);
            arith::lemma_or_bound(self.data, rhs.data, w2);
        }
        MaxBits { data: self.data | rhs.data, width: Ghost(w2) }
    }

    /// Bitwise XOR. Bounded by the wider operand for the same reason as OR.
    pub fn bitxor(self, rhs: MaxBits) -> (r: MaxBits)
        requires
            self.wf(),
            rhs.wf(),
        ensures
            r.wf(),
            r.width() == width_max(self.width(), rhs.width()),
            r.value() == self.value() ^ rhs.value(),
    {
        let ghost w2: nat = width_max(self.width(), rhs.width());
        proof {
            arith::lemma_pow2_le(self.width(), w2);
            arith::lemma_pow2_le(rhs.width(), w2);
            arith::lemma_xor_bound(self.data, rhs.data, w2);
        }
        MaxBits { data: self.data ^ rhs.data, width: Ghost(w2) }
    }

    /// Bitwise AND. AND can only clear bits, so the result is bounded by the
    /// narrower operand's guarantee and is tagged with the narrower width.
    pub fn bitand(self, rhs: MaxBits) -> (r: MaxBits)
        requires
            self.wf(),
            rhs.wf(),
        ensures
            r.wf(),
            r.width() == width_min(self.width(), rhs.width()),
            r.value() == self.value() & rhs.value(),
    {
        let ghost w2: nat = width_min(self.width(), rhs.width());
        proof {
            arith::lemma_and_bound(self.data, rhs.data);
        }
        MaxBits { data: self.data & rhs.data, width: Ghost(w2) }
    }

    /// Bitwise complement. Every unused high-order bit of the storage cell
    /// flips to one, so no width tighter than the full capacity can be
    /// guaranteed: the result is always tagged with the maximum supported
    /// width, whatever the input's width was. A deliberate precision loss.
    pub fn not(self) -> (r: MaxBits)
        requires
            self.wf(),
        ensures
            r.wf(),
            r.width() == MAX_WIDTH as nat,
            r.value() == !self.value(),
    {
        proof {
            arith::lemma_pow2_128();
        }
        MaxBits { data: !self.data, width: Ghost(MAX_WIDTH as nat) }
    }

    /// Addition. The sum of a `W1`-bit and a `W2`-bit value needs at most
    /// `max(W1, W2) + 1` bits, so the result is tagged with that width;
    /// callers must establish statically that it stays within capacity, and
    /// the sum is then proved not to overflow the storage cell.
    pub fn add(self, rhs: MaxBits) -> (r: MaxBits)
        requires
            self.wf(),
            rhs.wf(),
            width_max(self.width(), rhs.width()) + 1 <= MAX_WIDTH,
        ensures
            r.wf(),
            r.width() == width_max(self.width(), rhs.width()) + 1,
            r.value() == self.value() + rhs.value(),
    {
        let ghost wm: nat = width_max(self.width(), rhs.width());
        proof {
            arith::lemma_pow2_le(self.width(), wm);
            arith::lemma_pow2_le(rhs.width(), wm);
            vstd::arithmetic::power2::lemma_pow2_unfold(wm + 1);
            arith::lemma_pow2_le(wm + 1, 128);
            arith::lemma_pow2_128();
        }
        MaxBits { data: self.data + rhs.data, width: Ghost(wm + 1) }
    }

    /// Subtraction. With the subtrahend no wider and no larger than the
    /// minuend, the difference needs no more bits than the minuend, so the
    /// result keeps the minuend's width. Both conditions are the caller's
    /// static obligations; unsigned subtraction has no meaningful result
    /// when they fail, and the library never wraps silently.
    pub fn sub(self, rhs: MaxBits) -> (r: MaxBits)
        requires
            self.wf(),
            rhs.wf(),
            rhs.width() <= self.width(),
            rhs.value() <= self.value(),
        ensures
            r.wf(),
            r.width() == self.width(),
            r.value() == self.value() - rhs.value(),
    {
        MaxBits { data: self.data - rhs.data, width: self.width }
    }
}

/// Widen/narrow round trip: a well-formed value retagged to any width
/// `w >= v.width()` is still well formed, and its stored value still fits the
/// original width. Together with the contracts of [`MaxBits::widen`] (which
/// keeps the stored value and retags it `w`) and [`MaxBits::narrow`] (which
/// succeeds exactly when the stored value fits the target width and keeps the
/// value), this says `narrow(widen(v, w), v.width())` always succeeds and
/// returns a value equal to `v`.
pub proof fn lemma_widen_narrow_round_trip(v: MaxBits, w: nat)
    requires
        v.wf(),
        v.width() <= w,
        w <= MAX_WIDTH,
    ensures
        fits(v.value(), w),
        fits(v.value(), v.width()),
{
    arith::lemma_pow2_le(v.width(), w);
}

/// Shift round trip: left-shifting multiplies the stored value by `2^s` and
/// right-shifting divides it back out exactly, so by the contracts of
/// [`MaxBits::shl`] (value `v * 2^s`, width `W + s`) and [`MaxBits::shr`]
/// (value divided by `2^s`, width reduced by `s`), `(v << s) >> s` restores
/// both the stored value and the declared width whenever `W + s` stays within
/// capacity.
pub proof fn lemma_shift_round_trip(v: MaxBits, s: nat)
    requires
        v.wf(),
        v.width() + s <= MAX_WIDTH,
    ensures
        (v.value() * pow2(s)) / (pow2(s) as int) == v.value(),
        (v.width() + s) - s == v.width(),
{
    vstd::arithmetic::power2::lemma_pow2_pos(s);
    vstd::arithmetic::mul::lemma_mul_is_commutative(v.value() as int, pow2(s) as int);
    vstd::arithmetic::div_mod::lemma_div_multiples_vanish(v.value() as int, pow2(s) as int);
}

} // verus!
