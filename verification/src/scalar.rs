//! Binary32 numbers as bit patterns: classification, sign and order.
//!
//! All quantities of the simulator are IEEE 754 binary32 numbers.  They are held by their bit
//! patterns and computed on as integers, so that each result is the same on every machine and is
//! fixed by a contract: the exact result of the operation on real numbers, rounded once.

use crate::rounding::{lemma_magnitude_increases, magnitude, INF_CODE};
use vstd::prelude::*;

verus! {

/// The sign bit.
pub const SIGN: u32 = 0x8000_0000;

/// The bit pattern of the number that is returned where no number is a meaningful result.
pub const NAN_BITS: u32 = 0x7fc0_0000;

/// A binary32 number.  `==` compares bit patterns; numbers are ordered by [`Scalar::lt`] and
/// [`Scalar::le`].
#[derive(Clone, Copy, Debug, PartialEq, Eq, Structural)]
pub struct Scalar {
    /// The bit pattern: sign, exponent, fraction.
    pub bits: u32,
}

impl Scalar {
    /// Whether the sign bit is set.
    pub open spec fn spec_is_negative(self) -> bool {
        self.bits >= SIGN
    }

    /// The pattern without the sign bit, which numbers the magnitudes in increasing order.
    pub open spec fn code(self) -> u32 {
        (if self.bits >= SIGN {
            self.bits - SIGN
        } else {
            self.bits as int
        }) as u32
    }

    /// Whether this is no number.
    pub open spec fn spec_is_nan(self) -> bool {
        self.code() > INF_CODE
    }

    /// Whether this is a number other than the two infinities.
    pub open spec fn is_finite(self) -> bool {
        self.code() < INF_CODE
    }

    /// The value in units of `2^-149`; an infinity counts as the value beyond the largest
    /// finite one.
    pub open spec fn units(self) -> int {
        if self.spec_is_negative() {
            -magnitude(self.code() as int)
        } else {
            magnitude(self.code() as int)
        }
    }

    /// The number with the given sign and magnitude.
    pub open spec fn spec_signed(negative: bool, code: u32) -> Scalar {
        Scalar {
            bits: if negative {
                (code + SIGN) as u32
            } else {
                code
            },
        }
    }

    /// The value that stands for an undefined result.
    pub open spec fn spec_nan() -> Scalar {
        Scalar { bits: NAN_BITS }
    }

    /// Whether `self` is less than `other`; false where either is no number.
    #[verifier::opaque]
    pub open spec fn spec_lt(self, other: Scalar) -> bool {
        !self.spec_is_nan() && !other.spec_is_nan() && self.units() < other.units()
    }

    /// Whether `self` is at most `other`; false where either is no number.
    #[verifier::opaque]
    pub open spec fn spec_le(self, other: Scalar) -> bool {
        !self.spec_is_nan() && !other.spec_is_nan() && self.units() <= other.units()
    }

    /// The number with the opposite sign.
    pub open spec fn spec_negated(self) -> Scalar {
        Scalar::spec_signed(!self.spec_is_negative(), self.code())
    }

    /// The number without its sign.
    pub open spec fn spec_abs(self) -> Scalar {
        Scalar::spec_signed(false, self.code())
    }

    /// The larger of two numbers; the other one where one is no number.
    pub open spec fn spec_max(self, other: Scalar) -> Scalar {
        if self.spec_is_nan() || self.spec_lt(other) {
            other
        } else {
            self
        }
    }

    /// The smaller of two numbers; the other one where one is no number.
    pub open spec fn spec_min(self, other: Scalar) -> Scalar {
        if self.spec_is_nan() || other.spec_lt(self) {
            other
        } else {
            self
        }
    }

    /// The number of the range from `low` to `high` that is closest; what is no number stays so.
    pub open spec fn spec_clamp(self, low: Scalar, high: Scalar) -> Scalar {
        if self.spec_lt(low) {
            low
        } else if high.spec_lt(self) {
            high
        } else {
            self
        }
    }

    /// The number with the given bit pattern.
    pub fn from_bits(bits: u32) -> (r: Scalar)
        ensures
            r.bits == bits,
    {
        Scalar { bits }
    }

    /// The bit pattern of the number.
    pub fn to_bits(self) -> (bits: u32)
        ensures
            bits == self.bits,
    {
        self.bits
    }

    /// Whether the sign bit is set.
    #[verifier::when_used_as_spec(spec_is_negative)]
    pub fn is_negative(self) -> (r: bool)
        ensures
            r == self.is_negative(),
    {
        self.bits >= SIGN
    }

    /// The pattern without the sign bit.
    pub(crate) fn magnitude_code(self) -> (r: u32)
        ensures
            r == self.code(),
            r < SIGN,
    {
        if self.bits >= SIGN {
            self.bits - SIGN
        } else {
            self.bits
        }
    }

    /// Whether this is no number.
    #[verifier::when_used_as_spec(spec_is_nan)]
    pub fn is_nan(self) -> (r: bool)
        ensures
            r == self.is_nan(),
    {
        self.magnitude_code() > INF_CODE
    }

    /// The number with the given sign and magnitude.
    #[verifier::when_used_as_spec(spec_signed)]
    pub fn signed(negative: bool, code: u32) -> (r: Scalar)
        requires
            code < SIGN,
        ensures
            r == Scalar::signed(negative, code),
    {
        Scalar {
            bits: if negative {
                code + SIGN
            } else {
                code
            },
        }
    }

    /// The value that stands for an undefined result.
    #[verifier::when_used_as_spec(spec_nan)]
    pub fn nan() -> (r: Scalar)
        ensures
            r == Scalar::nan(),
    {
        Scalar { bits: NAN_BITS }
    }

    /// Whether `self` is less than `other`; false where either is no number.
    #[verifier::when_used_as_spec(spec_lt)]
    pub fn lt(self, other: Scalar) -> (r: bool)
        ensures
            r == self.lt(other),
    {
        proof {
            reveal(Scalar::spec_lt);
            lemma_units_order(self, other);
        }
        if self.is_nan() || other.is_nan() {
            return false;
        }
        let a: u32 = self.magnitude_code();
        let b: u32 = other.magnitude_code();
        if self.is_negative() {
            if other.is_negative() {
                b < a
            } else {
                a != 0 || b != 0
            }
        } else {
            !other.is_negative() && a < b
        }
    }

    /// Whether `self` is at most `other`; false where either is no number.
    #[verifier::when_used_as_spec(spec_le)]
    pub fn le(self, other: Scalar) -> (r: bool)
        ensures
            r == self.le(other),
    {
        proof {
            reveal(Scalar::spec_lt);
            reveal(Scalar::spec_le);
        }
        !self.is_nan() && !other.is_nan() && !other.lt(self)
    }

    /// The number with the opposite sign.
    #[verifier::when_used_as_spec(spec_negated)]
    pub fn negated(self) -> (r: Scalar)
        ensures
            r == self.negated(),
    {
        Scalar::signed(!self.is_negative(), self.magnitude_code())
    }

    /// The number without its sign.
    #[verifier::when_used_as_spec(spec_abs)]
    pub fn abs(self) -> (r: Scalar)
        ensures
            r == self.abs(),
    {
        Scalar::signed(false, self.magnitude_code())
    }

    /// The larger of two numbers; the other one where one is no number.
    #[verifier::when_used_as_spec(spec_max)]
    pub fn max(self, other: Scalar) -> (r: Scalar)
        ensures
            r == self.max(other),
    {
        if self.is_nan() || self.lt(other) {
            other
        } else {
            self
        }
    }

    /// The smaller of two numbers; the other one where one is no number.
    #[verifier::when_used_as_spec(spec_min)]
    pub fn min(self, other: Scalar) -> (r: Scalar)
        ensures
            r == self.min(other),
    {
        if self.is_nan() || other.lt(self) {
            other
        } else {
            self
        }
    }

    /// The number of the range from `low` to `high` that is closest; what is no number stays so.
    #[verifier::when_used_as_spec(spec_clamp)]
    pub fn clamp(self, low: Scalar, high: Scalar) -> (r: Scalar)
        requires
            low.le(high),
        ensures
            r == self.clamp(low, high),
    {
        if self.lt(low) {
            low
        } else if high.lt(self) {
            high
        } else {
            self
        }
    }
}

/// Magnitudes are not negative, and only zero has magnitude zero.
pub proof fn lemma_magnitude_sign(code: int)
    requires
        0 <= code,
    ensures
        magnitude(code) >= 0,
        magnitude(code) == 0 <==> code == 0,
{
    assert(magnitude(0) == 0) by {
        assert(0int * vstd::arithmetic::power2::pow2(0) == 0) by (nonlinear_arith);
    }
    if code > 0 {
        lemma_magnitude_increases(0, code);
    }
}

/// Values are ordered as signs and codes are.
proof fn lemma_units_order(a: Scalar, b: Scalar)
    ensures
        magnitude(a.code() as int) < magnitude(b.code() as int) <==> a.code() < b.code(),
        magnitude(b.code() as int) < magnitude(a.code() as int) <==> b.code() < a.code(),
        magnitude(a.code() as int) >= 0,
        magnitude(b.code() as int) >= 0,
        magnitude(a.code() as int) == 0 <==> a.code() == 0,
        magnitude(b.code() as int) == 0 <==> b.code() == 0,
{
    lemma_magnitude_sign(a.code() as int);
    lemma_magnitude_sign(b.code() as int);
    if a.code() < b.code() {
        lemma_magnitude_increases(a.code() as int, b.code() as int);
    } else if b.code() < a.code() {
        lemma_magnitude_increases(b.code() as int, a.code() as int);
    }
}

} // verus!
