//! Single precision numbers held as their bit patterns.

use vstd::prelude::*;

verus! {

/// Bit pattern of positive infinity.
pub const INFINITY_BITS: u32 = 0x7f80_0000;

/// First bit pattern whose sign bit is set.
pub const SIGN_BIT: u32 = 0x8000_0000;

/// An IEEE 754 single precision number, held as its bit pattern.
#[derive(Clone, Copy, Debug, PartialEq, Eq, Structural)]
pub struct Single {
    pub bits: u32,
}

/// The number whose bit pattern is `bits`.
pub open spec fn single(bits: u32) -> Single {
    Single { bits }
}

/// The distance from zero of the finite number with the given unsigned pattern,
/// counted in multiples of the smallest positive number, of which every finite number
/// is a whole multiple.
pub open spec fn scaled_magnitude(pattern: nat) -> nat {
    let exponent = pattern / 0x80_0000;
    let fraction = pattern % 0x80_0000;
    if exponent == 0 {
        fraction
    } else {
        (0x80_0000 + fraction) * vstd::arithmetic::power2::pow2((exponent - 1) as nat)
    }
}

impl Single {
    /// The bit pattern without the sign bit.
    pub open spec fn magnitude(self) -> nat {
        (self.bits % SIGN_BIT) as nat
    }

    /// Whether the sign bit is set.
    pub open spec fn negative(self) -> bool {
        self.bits >= SIGN_BIT
    }

    pub open spec fn nan(self) -> bool {
        self.magnitude() > INFINITY_BITS
    }

    pub open spec fn finite(self) -> bool {
        self.magnitude() < INFINITY_BITS
    }

    /// The place of a number in numeric order; both zeros share a place.
    pub open spec fn rank(self) -> int {
        if self.negative() {
            -(self.magnitude() as int)
        } else {
            self.magnitude() as int
        }
    }

    /// The exact value of a finite number, in multiples of the smallest positive one.
    pub open spec fn scaled(self) -> int {
        if self.negative() {
            -(scaled_magnitude(self.magnitude()) as int)
        } else {
            scaled_magnitude(self.magnitude()) as int
        }
    }

    /// `self < other` as the comparison of numbers has it.
    pub open spec fn below(self, other: Single) -> bool {
        !self.nan() && !other.nan() && self.rank() < other.rank()
    }

    /// `self <= other` as the comparison of numbers has it.
    pub open spec fn at_most(self, other: Single) -> bool {
        !self.nan() && !other.nan() && self.rank() <= other.rank()
    }

    /// The two stand for the same value; what is not a number is the same as nothing.
    pub open spec fn same(self, other: Single) -> bool {
        self.at_most(other) && other.at_most(self)
    }

    pub open spec fn negated(self) -> Single {
        if self.negative() {
            single((self.bits - SIGN_BIT) as u32)
        } else {
            single((self.bits + SIGN_BIT) as u32)
        }
    }

    pub open spec fn absolute(self) -> Single {
        single((self.bits % SIGN_BIT) as u32)
    }

    /// The smaller of two numbers; the other one where one is not a number.
    pub open spec fn lesser(self, other: Single) -> Single {
        if self.nan() || other.below(self) {
            other
        } else {
            self
        }
    }

    /// The larger of two numbers; the other one where one is not a number.
    pub open spec fn greater(self, other: Single) -> Single {
        if self.nan() || self.below(other) {
            other
        } else {
            self
        }
    }

    /// `self` moved to the nearer end of `low..=high` where it lies outside.
    pub open spec fn clamped(self, low: Single, high: Single) -> Single {
        if self.below(low) {
            low
        } else if high.below(self) {
            high
        } else {
            self
        }
    }

    /// `self`, or `fallback` where `self` is an infinity or not a number.
    pub open spec fn finite_or(self, fallback: Single) -> Single {
        if self.finite() {
            self
        } else {
            fallback
        }
    }

    pub fn from_bits(bits: u32) -> (result: Single)
        ensures
            result == single(bits),
    {
        Single { bits }
    }

    pub fn to_bits(self) -> (bits: u32)
        ensures
            bits == self.bits,
    {
        self.bits
    }

    pub fn is_finite(self) -> (result: bool)
        ensures
            result == self.finite(),
    {
        self.bits % SIGN_BIT < INFINITY_BITS
    }

    pub fn is_nan(self) -> (result: bool)
        ensures
            result == self.nan(),
    {
        self.bits % SIGN_BIT > INFINITY_BITS
    }

    /// Whether `self < other`; false where either is not a number.
    pub fn lt(self, other: Single) -> (result: bool)
        ensures
            result == self.below(other),
    {
        if self.is_nan() || other.is_nan() {
            return false;
        }
        let left: u32 = self.bits % SIGN_BIT;
        let right: u32 = other.bits % SIGN_BIT;
        if self.bits >= SIGN_BIT {
            if other.bits >= SIGN_BIT {
                right < left
            } else {
                left > 0 || right > 0
            }
        } else {
            other.bits < SIGN_BIT && left < right
        }
    }

    /// Whether `self <= other`; false where either is not a number.
    pub fn le(self, other: Single) -> (result: bool)
        ensures
            result == self.at_most(other),
    {
        !self.is_nan() && !other.is_nan() && !other.lt(self)
    }

    pub fn is_same(self, other: Single) -> (result: bool)
        ensures
            result == self.same(other),
    {
        self.le(other) && other.le(self)
    }

    pub fn neg(self) -> (result: Single)
        ensures
            result == self.negated(),
    {
        if self.bits >= SIGN_BIT {
            Single { bits: self.bits - SIGN_BIT }
        } else {
            Single { bits: self.bits + SIGN_BIT }
        }
    }

    pub fn abs(self) -> (result: Single)
        ensures
            result == self.absolute(),
    {
        Single { bits: self.bits % SIGN_BIT }
    }

    pub fn min(self, other: Single) -> (result: Single)
        ensures
            result == self.lesser(other),
    {
        if self.is_nan() || other.lt(self) {
            other
        } else {
            self
        }
    }

    pub fn max(self, other: Single) -> (result: Single)
        ensures
            result == self.greater(other),
    {
        if self.is_nan() || self.lt(other) {
            other
        } else {
            self
        }
    }

    pub fn clamp(self, low: Single, high: Single) -> (result: Single)
        ensures
            result == self.clamped(low, high),
    {
        if self.lt(low) {
            low
        } else if high.lt(self) {
            high
        } else {
            self
        }
    }

    /// `self` where it is finite, `fallback` elsewhere.
    pub fn or_if_not_finite(self, fallback: Single) -> (result: Single)
        ensures
            result == self.finite_or(fallback),
    {
        if self.is_finite() {
            self
        } else {
            fallback
        }
    }
}

/// A larger pattern below infinity stands for a larger distance from zero.
proof fn lemma_magnitude_step(pattern: nat)
    requires
        pattern + 1 < INFINITY_BITS,
    ensures
        scaled_magnitude(pattern) < scaled_magnitude(pattern + 1),
{
    let exponent = pattern / 0x80_0000;
    let fraction = pattern % 0x80_0000;
    vstd::arithmetic::power2::lemma_pow2_pos(if exponent == 0 { 0 } else { (exponent - 1) as nat });
    if fraction + 1 < 0x80_0000 {
        assert((pattern + 1) / 0x80_0000 == exponent);
        assert((pattern + 1) % 0x80_0000 == fraction + 1);
        if exponent > 0 {
            let unit = vstd::arithmetic::power2::pow2((exponent - 1) as nat);
            assert((0x80_0000 + fraction) * unit < (0x80_0000 + fraction + 1) * unit)
                by (nonlinear_arith)
                requires
                    unit > 0,
            ;
        }
    } else {
        assert((pattern + 1) / 0x80_0000 == exponent + 1);
        assert((pattern + 1) % 0x80_0000 == 0);
        if exponent > 0 {
            let unit = vstd::arithmetic::power2::pow2((exponent - 1) as nat);
            vstd::arithmetic::power2::lemma_pow2_unfold(exponent);
            assert(vstd::arithmetic::power2::pow2(exponent) == 2 * unit);
            assert((0x80_0000 + fraction) * unit < 0x80_0000 * (2 * unit)) by (nonlinear_arith)
                requires
                    unit > 0,
                    fraction == 0x7f_ffff,
            ;
        } else {
            vstd::arithmetic::power2::lemma2_to64();
        }
    }
}

proof fn lemma_magnitude_order(low: nat, high: nat)
    requires
        low < high < INFINITY_BITS,
    ensures
        scaled_magnitude(low) < scaled_magnitude(high),
    decreases high - low,
{
    lemma_magnitude_step(low);
    if low + 1 < high {
        lemma_magnitude_order(low + 1, high);
    }
}

/// Comparing bit patterns compares the numbers: two finite numbers are in the order
/// of their exact values.
pub proof fn law_order_is_order_of_values(a: Single, b: Single)
    requires
        a.finite(),
        b.finite(),
    ensures
        a.below(b) <==> a.scaled() < b.scaled(),
        a.at_most(b) <==> a.scaled() <= b.scaled(),
{
    let p = a.magnitude();
    let q = b.magnitude();
    if p < q {
        lemma_magnitude_order(p, q);
    } else if q < p {
        lemma_magnitude_order(q, p);
    }
    if p > 0 {
        lemma_magnitude_order(0, p);
    }
    if q > 0 {
        lemma_magnitude_order(0, q);
    }
    assert(scaled_magnitude(0) == 0);
}

/// A clamped number lies between the ends, and one already between them is kept.
pub proof fn law_clamp_bounds(value: Single, low: Single, high: Single)
    requires
        low.at_most(high),
    ensures
        value.nan() ==> value.clamped(low, high) == value,
        !value.nan() ==> low.at_most(value.clamped(low, high)) && value.clamped(
            low,
            high,
        ).at_most(high),
        low.at_most(value) && value.at_most(high) ==> value.clamped(low, high) == value,
{
}

/// Picking between two finite numbers picks by their exact values, and the sign and the distance
/// from zero are those of the exact value.
pub proof fn law_picks_go_by_values(a: Single, b: Single)
    requires
        a.finite(),
        b.finite(),
    ensures
        a.greater(b) == a || a.greater(b) == b,
        a.scaled() <= a.greater(b).scaled(),
        b.scaled() <= a.greater(b).scaled(),
        a.lesser(b) == a || a.lesser(b) == b,
        a.lesser(b).scaled() <= a.scaled(),
        a.lesser(b).scaled() <= b.scaled(),
        a.negated().scaled() == -a.scaled(),
        a.absolute().scaled() == (if a.scaled() < 0 {
            -a.scaled()
        } else {
            a.scaled()
        }),
        a.same(b) <==> a.scaled() == b.scaled(),
{
    law_order_is_order_of_values(a, b);
    law_order_is_order_of_values(b, a);
    assert(a.negated().magnitude() == a.magnitude());
    assert(a.absolute().magnitude() == a.magnitude());
}

/// A finite number beyond an end of a range is clamped to that end, by exact values.
pub proof fn law_clamping_goes_by_values(value: Single, low: Single, high: Single)
    requires
        value.finite() && low.finite() && high.finite(),
        low.scaled() <= high.scaled(),
    ensures
        value.scaled() < low.scaled() ==> value.clamped(low, high) == low,
        high.scaled() < value.scaled() ==> value.clamped(low, high) == high,
        low.scaled() <= value.scaled() <= high.scaled() ==> value.clamped(low, high) == value,
{
    law_order_is_order_of_values(value, low);
    law_order_is_order_of_values(high, value);
}

/// A pattern whose exponent is not the largest one is a finite number, one with the largest exponent
/// and nothing behind it is an infinity, and everything else is not a number; the sign has no part in
/// that.
pub proof fn law_patterns_are_told_apart(x: Single)
    ensures
        x.finite() <==> x.bits / 0x80_0000 % 0x100 < 0xff,
        x.nan() <==> x.bits / 0x80_0000 % 0x100 == 0xff && x.bits % 0x80_0000 != 0,
        !x.finite() && !x.nan() <==> x.magnitude() == 0x7f80_0000,
        x.negative() <==> x.bits / 0x8000_0000 == 1,
        x.negated().finite() == x.finite() && x.negated().nan() == x.nan(),
{
}

/// The opposite of the opposite is the number itself, a number and its opposite are equally far from
/// zero on different sides of it, and a distance has no sign.
pub proof fn law_opposites_are_equally_far(x: Single)
    ensures
        x.negated().negated() == x,
        x.negated().negative() != x.negative(),
        x.negated().rank() == -x.rank(),
        !x.absolute().negative(),
        x.absolute() == x || x.absolute() == x.negated(),
        x.absolute().rank() >= 0,
        x.absolute().absolute() == x.absolute(),
{
}

/// A finite number stands for itself, and anything else is replaced.
pub proof fn law_only_finite_numbers_are_kept(x: Single, instead: Single)
    ensures
        x.finite() ==> x.finite_or(instead) == x,
        !x.finite() ==> x.finite_or(instead) == instead,
        instead.finite() ==> x.finite_or(instead).finite(),
{
}

} // verus!
