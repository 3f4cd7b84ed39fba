//! Mirror images: what arithmetic makes of numbers whose signs are reversed.

use crate::order::{law_commutes, law_rounding_keeps_numbers};
use crate::rounding::{lemma_nearest_exists, magnitude, nearest};
use crate::scalar::{lemma_magnitude_sign, Scalar};
use vstd::arithmetic::power2::pow2;
use vstd::prelude::*;

verus! {

/// Whether two numbers are opposite: as large as each other, and of opposite signs unless they are
/// zero.  What is no number is opposite to what is none.
pub open spec fn mirrored(x: Scalar, y: Scalar) -> bool {
    if x.is_nan() {
        y.is_nan()
    } else {
        y.code() == x.code() && (x.code() == 0 || x.is_negative() != y.is_negative())
    }
}

/// A number and its negation are opposite, opposites have opposite values, and each is opposite to
/// the other.
pub proof fn law_mirrored(x: Scalar, y: Scalar)
    ensures
        mirrored(x, x.negated()),
        mirrored(x, y) <==> mirrored(y, x),
        mirrored(x, y) && !x.is_nan() ==> y.units() == -x.units(),
{
    lemma_magnitude_sign(0);
}

/// The sum of opposites is opposite to the sum.
pub proof fn law_mirrored_sum(a: Scalar, b: Scalar, c: Scalar, d: Scalar)
    requires
        mirrored(a, c),
        mirrored(b, d),
    ensures
        mirrored(a.plus(b), c.plus(d)),
{
    reveal(Scalar::spec_plus);
    lemma_magnitude_sign(0);
    if a.is_finite() && b.is_finite() {
        let sum = a.units() + b.units();
        assert(c.units() + d.units() == -sum);
        let size = (if sum < 0 {
            -sum
        } else {
            sum
        }) as nat;
        lemma_nearest_exists(2 * size / 1, 2 * size % 1 == 0);
    }
}

/// The product with an opposite is opposite to the product, and the square is the same.
pub proof fn law_mirrored_product(a: Scalar, c: Scalar, b: Scalar)
    requires
        mirrored(a, c),
    ensures
        mirrored(a.times(b), c.times(b)),
        mirrored(b.times(a), b.times(c)),
        a.times(a) == c.times(c),
{
    law_commutes(a, b);
    law_commutes(c, b);
    reveal(Scalar::spec_times);
    let num = (magnitude(a.code() as int) * magnitude(b.code() as int)) as nat;
    lemma_nearest_exists(num / pow2(148), num % pow2(148) == 0);
    if a.code() == 0 && b.is_finite() {
        crate::accuracy::law_product_with_zero(b, a);
        crate::accuracy::law_product_with_zero(b, c);
    }
}

/// The quotient of an opposite is opposite to the quotient.
pub proof fn law_mirrored_quotient(a: Scalar, c: Scalar, b: Scalar)
    requires
        mirrored(a, c),
    ensures
        mirrored(a.over(b), c.over(b)),
{
    reveal(Scalar::spec_over);
    let num = (magnitude(a.code() as int) * pow2(150)) as nat;
    let den = magnitude(b.code() as int) as nat;
    lemma_magnitude_sign(b.code() as int);
    lemma_magnitude_sign(0);
    lemma_nearest_exists(num / den, num % den == 0);
    if a.code() == 0 && b.code() != 0 {
        assert(num == 0) by (nonlinear_arith)
            requires
                num == magnitude(0) * pow2(150),
                magnitude(0) == 0,
        ;
        vstd::arithmetic::div_mod::lemma_div_of0(den as int);
        vstd::arithmetic::div_mod::lemma_small_mod(0, den);
        law_rounding_keeps_numbers(0);
        assert(nearest(num / den, num % den == 0) == 0);
    }
}

/// A difference is opposite to the difference the other way round.
pub proof fn law_mirrored_difference(a: Scalar, b: Scalar)
    ensures
        mirrored(a.minus(b), b.minus(a)),
{
    law_mirrored(a, b);
    law_mirrored(b, a);
    law_mirrored(b.negated(), b);
    law_mirrored_sum(a, b.negated(), a.negated(), b);
    law_commutes(a.negated(), b);
}

} // verus!
