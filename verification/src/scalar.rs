//! Scalars of the renderer: IEEE 754 binary64 values held by their bit
//! patterns.
//!
//! Everything the renderer *decides* about a scalar (is it inside an interval,
//! which of two is nearer, is it above one) depends only on the order of the
//! values, and that order can be read off the bits with integer arithmetic.
//! Rounding arithmetic (sums, products, roots) is not done here.

use vstd::prelude::*;
use vstd::arithmetic::power2::{lemma2_to64, lemma2_to64_rest, pow2};

verus! {

/// The sign bit of a binary64 pattern.
pub const SIGN_BIT: u64 = 0x8000_0000_0000_0000;

/// The pattern of positive infinity; every larger magnitude is a NaN.
pub const INFINITY_BITS: u64 = 0x7ff0_0000_0000_0000;

/// The pattern of `1`.
pub const ONE_BITS: u64 = 0x3ff0_0000_0000_0000;

/// The hidden leading bit of a normal value's significand: two to the 52.
pub const HIDDEN_BIT: u64 = 0x0010_0000_0000_0000;

/// The biased exponent of the values from 1 up to 2.
pub const EXPONENT_BIAS: u64 = 1023;

/// The pattern of the binary64 value nearest to `0.000001`.
pub const EPSILON_BITS: u64 = 0x3eb0_c6f7_a0b5_ed8d;

/// The pattern of the binary64 value nearest to `0.999`.
pub const ALMOST_ONE_BITS: u64 = 0x3fef_f7ce_d916_872b;

/// A binary64 value, identified by its bit pattern. The derived `==` compares
/// patterns; numeric comparison is `lt`, `le` and `same`.
#[derive(Clone, Copy, Debug, PartialEq, Eq, Structural)]
pub struct Scalar {
    pub bits: u64,
}

impl Scalar {
    /// The pattern with the sign bit cleared.
    pub open spec fn magnitude(self) -> u64 {
        if self.bits >= SIGN_BIT {
            (self.bits - SIGN_BIT) as u64
        } else {
            self.bits
        }
    }

    /// Whether the sign bit is set.
    pub open spec fn negative(self) -> bool {
        self.bits >= SIGN_BIT
    }

    /// Whether the value is a NaN.
    pub open spec fn nan(self) -> bool {
        self.magnitude() > INFINITY_BITS
    }

    /// The position of a non-NaN value in the numeric order: magnitudes of
    /// one sign are ordered as their patterns, and both zeros have rank 0.
    pub open spec fn rank(self) -> int {
        if self.negative() {
            -(self.magnitude() as int)
        } else {
            self.magnitude() as int
        }
    }

    /// `self < other` as binary64 values: false whenever a NaN is involved.
    pub open spec fn below(self, other: Scalar) -> bool {
        !self.nan() && !other.nan() && self.rank() < other.rank()
    }

    /// `self <= other` as binary64 values: false whenever a NaN is involved.
    pub open spec fn at_most(self, other: Scalar) -> bool {
        !self.nan() && !other.nan() && self.rank() <= other.rank()
    }

    /// `self == other` as binary64 values: the zeros are equal, a NaN equals
    /// nothing.
    pub open spec fn same_value(self, other: Scalar) -> bool {
        !self.nan() && !other.nan() && self.rank() == other.rank()
    }

    /// The value with its sign bit flipped.
    pub open spec fn negated(self) -> Scalar {
        if self.bits >= SIGN_BIT {
            (Scalar { bits: (self.bits - SIGN_BIT) as u64 })
        } else {
            (Scalar { bits: (self.bits + SIGN_BIT) as u64 })
        }
    }

    /// The smaller of two values; where one is a NaN, the other; `self` where
    /// they are numerically equal.
    pub open spec fn lesser(self, other: Scalar) -> Scalar {
        if self.nan() {
            other
        } else if other.below(self) {
            other
        } else {
            self
        }
    }

    /// The larger of two values; where one is a NaN, the other; `self` where
    /// they are numerically equal.
    pub open spec fn greater(self, other: Scalar) -> Scalar {
        if self.nan() {
            other
        } else if self.below(other) {
            other
        } else {
            self
        }
    }

    /// `self` limited from above by `max`, then from below by `min`.
    pub open spec fn clamped(self, min: Scalar, max: Scalar) -> Scalar {
        self.lesser(max).greater(min)
    }

    /// The exponent field of the pattern.
    pub open spec fn exponent(self) -> int {
        self.magnitude() as int / HIDDEN_BIT as int
    }

    /// The fraction field of the pattern.
    pub open spec fn fraction(self) -> int {
        self.magnitude() as int % HIDDEN_BIT as int
    }

    /// The value cut down to a whole number from 0 to 255: 0 for a NaN, for
    /// a negative value and for a value below one; 255 for a value of 256
    /// or more; else the whole part of the value, which is its significand
    /// `2^52 + fraction` without the `52 - (exponent - 1023)` lowest bits.
    pub open spec fn truncated(self) -> int {
        if self.nan() || self.negative() || self.exponent() < EXPONENT_BIAS {
            0
        } else if self.exponent() >= EXPONENT_BIAS + 8 {
            255
        } else {
            (HIDDEN_BIT + self.fraction()) / (pow2(
                (52 - (self.exponent() - EXPONENT_BIAS)) as nat,
            ) as int)
        }
    }

    pub fn from_bits(bits: u64) -> (s: Scalar)
        ensures
            s.bits == bits,
    {
        Scalar { bits }
    }

    pub fn to_bits(self) -> (bits: u64)
        ensures
            bits == self.bits,
    {
        self.bits
    }

    /// Positive zero.
    pub open spec fn spec_zero() -> Scalar {
        Scalar { bits: 0 }
    }

    /// Positive zero.
    #[verifier::when_used_as_spec(spec_zero)]
    pub fn zero() -> (s: Scalar)
        ensures
            s == Self::spec_zero(),
    {
        Scalar { bits: 0 }
    }

    /// The value `1`.
    pub open spec fn spec_one() -> Scalar {
        Scalar { bits: ONE_BITS }
    }

    /// The value `1`.
    #[verifier::when_used_as_spec(spec_one)]
    pub fn one() -> (s: Scalar)
        ensures
            s == Self::spec_one(),
    {
        Scalar { bits: ONE_BITS }
    }

    /// Positive infinity.
    pub open spec fn spec_infinity() -> Scalar {
        Scalar { bits: INFINITY_BITS }
    }

    /// Positive infinity.
    #[verifier::when_used_as_spec(spec_infinity)]
    pub fn infinity() -> (s: Scalar)
        ensures
            s == Self::spec_infinity(),
    {
        Scalar { bits: INFINITY_BITS }
    }

    /// The binary64 value nearest to `0.000001`, below which a surface
    /// counts as the ray's own origin.
    pub open spec fn spec_epsilon() -> Scalar {
        Scalar { bits: EPSILON_BITS }
    }

    /// The binary64 value nearest to `0.000001`.
    #[verifier::when_used_as_spec(spec_epsilon)]
    pub fn epsilon() -> (s: Scalar)
        ensures
            s == Self::spec_epsilon(),
    {
        Scalar { bits: EPSILON_BITS }
    }

    /// The binary64 value nearest to `0.999`, the brightest a channel gets.
    pub open spec fn spec_almost_one() -> Scalar {
        Scalar { bits: ALMOST_ONE_BITS }
    }

    /// The binary64 value nearest to `0.999`.
    #[verifier::when_used_as_spec(spec_almost_one)]
    pub fn almost_one() -> (s: Scalar)
        ensures
            s == Self::spec_almost_one(),
    {
        Scalar { bits: ALMOST_ONE_BITS }
    }

    fn abs_bits(self) -> (m: u64)
        ensures
            m == self.magnitude(),
    {
        if self.bits >= SIGN_BIT {
            self.bits - SIGN_BIT
        } else {
            self.bits
        }
    }

    pub fn is_sign_negative(self) -> (r: bool)
        ensures
            r == self.negative(),
    {
        self.bits >= SIGN_BIT
    }

    pub fn is_nan(self) -> (r: bool)
        ensures
            r == self.nan(),
    {
        self.abs_bits() > INFINITY_BITS
    }

    /// Numeric `<`.
    pub fn lt(self, other: Scalar) -> (r: bool)
        ensures
            r == self.below(other),
    {
        if self.is_nan() || other.is_nan() {
            return false;
        }
        let a: u64 = self.abs_bits();
        let b: u64 = other.abs_bits();
        if self.is_sign_negative() {
            if other.is_sign_negative() {
                b < a
            } else {
                a != 0 || b != 0
            }
        } else {
            !other.is_sign_negative() && a < b
        }
    }

    /// Numeric `<=`.
    pub fn le(self, other: Scalar) -> (r: bool)
        ensures
            r == self.at_most(other),
    {
        if self.is_nan() || other.is_nan() {
            return false;
        }
        !other.lt(self)
    }

    /// Numeric `>`.
    pub fn gt(self, other: Scalar) -> (r: bool)
        ensures
            r == other.below(self),
    {
        other.lt(self)
    }

    /// Numeric `>=`.
    pub fn ge(self, other: Scalar) -> (r: bool)
        ensures
            r == other.at_most(self),
    {
        other.le(self)
    }

    /// Numeric `==`.
    pub fn same(self, other: Scalar) -> (r: bool)
        ensures
            r == self.same_value(other),
    {
        self.le(other) && other.le(self)
    }

    /// Negation, which is exact: only the sign bit changes.
    pub fn neg(self) -> (r: Scalar)
        ensures
            r == self.negated(),
            r.magnitude() == self.magnitude(),
            r.negative() == !self.negative(),
            r.nan() == self.nan(),
            r.rank() == -self.rank(),
    {
        if self.bits >= SIGN_BIT {
            (Scalar { bits: self.bits - SIGN_BIT })
        } else {
            (Scalar { bits: self.bits + SIGN_BIT })
        }
    }

    /// The smaller of the two, ignoring a NaN where the other is a number.
    pub fn min(self, other: Scalar) -> (r: Scalar)
        ensures
            r == self.lesser(other),
            r == self || r == other,
            !self.nan() && !other.nan() ==> r.at_most(self) && r.at_most(other),
            r.nan() <==> self.nan() && other.nan(),
    {
        if self.is_nan() {
            other
        } else if other.lt(self) {
            other
        } else {
            self
        }
    }

    /// The larger of the two, ignoring a NaN where the other is a number.
    pub fn max(self, other: Scalar) -> (r: Scalar)
        ensures
            r == self.greater(other),
            r == self || r == other,
            !self.nan() && !other.nan() ==> self.at_most(r) && other.at_most(r),
            r.nan() <==> self.nan() && other.nan(),
    {
        if self.is_nan() {
            other
        } else if self.lt(other) {
            other
        } else {
            self
        }
    }

    /// The value as a byte: cut down to a whole number, and held to the
    /// range of a byte.
    pub fn to_u8(self) -> (byte: u8)
        ensures
            byte == self.truncated(),
    {
        if self.is_nan() || self.is_sign_negative() {
            return 0;
        }
        let exponent: u64 = self.bits / HIDDEN_BIT;
        let fraction: u64 = self.bits % HIDDEN_BIT;
        if exponent < EXPONENT_BIAS {
            return 0;
        }
        if exponent >= EXPONENT_BIAS + 8 {
            return 255;
        }
        let power: u64 = exponent - EXPONENT_BIAS;
        let unit: u64 = if power == 0 {
            0x0010_0000_0000_0000
        } else if power == 1 {
            0x0008_0000_0000_0000
        } else if power == 2 {
            0x0004_0000_0000_0000
        } else if power == 3 {
            0x0002_0000_0000_0000
        } else if power == 4 {
            0x0001_0000_0000_0000
        } else if power == 5 {
            0x0000_8000_0000_0000
        } else if power == 6 {
            0x0000_4000_0000_0000
        } else {
            0x0000_2000_0000_0000
        };
        proof {
            lemma2_to64();
            lemma2_to64_rest();
            assert(unit == pow2((52 - power) as nat));
        }
        let whole: u64 = (HIDDEN_BIT + fraction) / unit;
        assert(whole <= 255) by (nonlinear_arith)
            requires
                whole == (HIDDEN_BIT + fraction) / (unit as int),
                fraction < HIDDEN_BIT,
                unit >= 0x0000_2000_0000_0000,
                HIDDEN_BIT == 0x0010_0000_0000_0000,
        ;
        whole as u8
    }
}

/// Limits `x` to the range from `min` to `max`: `x` itself where it lies
/// inside, the nearer bound where it lies outside, and the upper bound where
/// `x` is a NaN.
pub fn clamp(x: Scalar, min: Scalar, max: Scalar) -> (r: Scalar)
    ensures
        r == x.clamped(min, max),
        !min.nan() && !max.nan() && min.at_most(max) ==> min.at_most(r) && r.at_most(max),
        min.at_most(x) && x.at_most(max) ==> r.same_value(x),
        x.below(min) && min.at_most(max) ==> r == min,
        max.below(x) && min.at_most(max) ==> r.same_value(max),
        x.nan() && min.at_most(max) ==> r == max,
{
    x.min(max).max(min)
}

/// Numeric comparison is a strict order on the values that are no NaN, and
/// unordered on the rest: nothing is below itself, `below` is transitive, and
/// of two numbers exactly one of "below", "above" and "same value" holds.
pub proof fn order_laws(a: Scalar, b: Scalar, c: Scalar)
    ensures
        !a.below(a),
        a.below(b) && b.below(c) ==> a.below(c),
        a.at_most(b) && b.below(c) ==> a.below(c),
        a.below(b) && b.at_most(c) ==> a.below(c),
        a.at_most(b) <==> a.below(b) || a.same_value(b),
        !a.nan() && !b.nan() ==> (a.below(b) || b.below(a) || a.same_value(b)),
        !(a.below(b) && b.below(a)),
        !(a.below(b) && a.same_value(b)),
        a.nan() || b.nan() ==> !a.below(b) && !a.at_most(b) && !a.same_value(b),
{
}

/// Negation turns the order round and undoes itself.
pub proof fn negation_laws(a: Scalar, b: Scalar)
    ensures
        a.negated().negated() == a,
        a.below(b) <==> b.negated().below(a.negated()),
        a.at_most(b) <==> b.negated().at_most(a.negated()),
        a.negated().nan() == a.nan(),
{
}

} // verus!
