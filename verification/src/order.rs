//! Laws of the order of binary32 numbers.

use crate::rounding::{lemma_magnitude_increases, lemma_magnitude_step};
use crate::rounding::{lemma_nearest_exists, lemma_nearest_is};
use crate::rounding::{magnitude, midpoint, nearest, scale, significand, INF_CODE};
use crate::scalar::{lemma_magnitude_sign, Scalar};
use vstd::arithmetic::power2::pow2;
use vstd::prelude::*;

verus! {

/// No number is less than itself, and of two numbers at most one is less than the other.
pub proof fn law_lt_is_strict(a: Scalar, b: Scalar)
    ensures
        !a.lt(a),
        a.lt(b) ==> !b.lt(a),
{
    reveal(Scalar::spec_lt);
}

/// What is less than a lesser number is less.
pub proof fn law_lt_is_transitive(a: Scalar, b: Scalar, c: Scalar)
    ensures
        a.lt(b) && b.lt(c) ==> a.lt(c),
        a.lt(b) && b.le(c) ==> a.lt(c),
        a.le(b) && b.lt(c) ==> a.lt(c),
        a.le(b) && b.le(c) ==> a.le(c),
{
    reveal(Scalar::spec_lt);
    reveal(Scalar::spec_le);
}

/// Of two numbers, one is less than the other or they are at most each other; what is no number
/// compares with nothing.
pub proof fn law_order_is_total(a: Scalar, b: Scalar)
    ensures
        !a.is_nan() && !b.is_nan() ==> (a.lt(b) <==> !b.le(a)),
        a.is_nan() || b.is_nan() ==> !a.lt(b) && !a.le(b),
        a.lt(b) ==> a.le(b),
{
    reveal(Scalar::spec_lt);
    reveal(Scalar::spec_le);
}

/// A clamped number lies within the bounds, a number within the bounds is not changed, and
/// clamping again changes nothing.
pub proof fn law_clamp_is_within(x: Scalar, low: Scalar, high: Scalar)
    requires
        low.le(high),
    ensures
        !x.is_nan() ==> low.le(x.clamp(low, high)) && x.clamp(low, high).le(high),
        x.is_nan() ==> x.clamp(low, high) == x,
        low.le(x) && x.le(high) ==> x.clamp(low, high) == x,
        x.clamp(low, high).clamp(low, high) == x.clamp(low, high),
{
    reveal(Scalar::spec_lt);
    reveal(Scalar::spec_le);
}

/// The larger of a number and a bound is at least the bound.
pub proof fn law_max_is_at_least(x: Scalar, bound: Scalar)
    requires
        !bound.is_nan(),
    ensures
        bound.le(x.max(bound)),
        !x.is_nan() ==> x.le(x.max(bound)),
        x.max(bound) == x || x.max(bound) == bound,
{
    reveal(Scalar::spec_lt);
    reveal(Scalar::spec_le);
}

/// The smaller of a number and a bound is at most the bound.
pub proof fn law_min_is_at_most(x: Scalar, bound: Scalar)
    requires
        !bound.is_nan(),
    ensures
        x.min(bound).le(bound),
        x.min(bound) == x || x.min(bound) == bound,
{
    reveal(Scalar::spec_lt);
    reveal(Scalar::spec_le);
}

/// Negating twice gives the number back, and negating reverses the order.
pub proof fn law_negation(a: Scalar, b: Scalar)
    ensures
        a.negated().negated() == a,
        a.negated().units() == -a.units(),
        a.lt(b) <==> b.negated().lt(a.negated()),
        a.is_nan() <==> a.negated().is_nan(),
{
    reveal(Scalar::spec_lt);
}

/// Sums and products do not depend on the order of their terms.
pub proof fn law_commutes(a: Scalar, b: Scalar)
    ensures
        a.plus(b) == b.plus(a),
        a.times(b) == b.times(a),
{
    reveal(Scalar::spec_plus);
    reveal(Scalar::spec_times);
    assert(magnitude(a.code() as int) * magnitude(b.code() as int) == magnitude(b.code() as int)
        * magnitude(a.code() as int)) by (nonlinear_arith);
}

/// Rounding keeps the order of real numbers.
pub proof fn law_rounding_is_monotonic(v: nat, v_exact: bool, w: nat, w_exact: bool)
    requires
        v < w || (v == w && (w_exact ==> v_exact)),
    ensures
        nearest(v, v_exact) <= nearest(w, w_exact),
{
    let c = nearest(v, v_exact) as int;
    let d = nearest(w, w_exact) as int;
    lemma_nearest_exists(v, v_exact);
    lemma_nearest_exists(w, w_exact);
    if d < c - 1 {
        lemma_magnitude_increases(d, c - 1);
        lemma_magnitude_increases(d + 1, c);
        assert(midpoint(d) < midpoint(c - 1));
    }
}

/// The integral parts of two quotients are ordered as the quotients are.
pub proof fn lemma_quotient_order(a: nat, b: nat, c: nat, d: nat)
    requires
        b > 0,
        d > 0,
        a * d <= c * b,
    ensures
        a / b < c / d || (a / b == c / d && (c % d == 0 ==> a % b == 0)),
{
    let q = (a / b) as int;
    let r = (a % b) as int;
    let s = (c / d) as int;
    let t = (c % d) as int;
    vstd::arithmetic::div_mod::lemma_fundamental_div_mod(a as int, b as int);
    vstd::arithmetic::div_mod::lemma_fundamental_div_mod(c as int, d as int);
    assert(q <= s) by (nonlinear_arith)
        requires
            (b * q + r) * d <= (d * s + t) * b,
            r >= 0,
            t < d,
            b > 0,
            d > 0,
    ;
    if q == s && t == 0 {
        assert(r == 0) by (nonlinear_arith)
            requires
                (b * q + r) * d <= (d * s + t) * b,
                q == s,
                t == 0,
                r >= 0,
                d > 0,
        ;
    }
}

/// Rounded fractions are numbers, and are ordered as the fractions are; the negated ones are
/// below them.
pub proof fn law_ratio_order(p: u32, q: u32, r: u32, s: u32)
    requires
        q > 0,
        s > 0,
    ensures
        p * s <= r * q ==> Scalar::ratio(p, q).le(Scalar::ratio(r, s)),
        Scalar::ratio(p, q).negated().le(Scalar::ratio(r, s)),
        !Scalar::ratio(p, q).is_nan(),
        !Scalar::ratio(r, s).is_nan(),
        !Scalar::ratio(p, q).is_negative(),
{
    reveal(Scalar::spec_ratio);
    reveal(Scalar::spec_le);
    let k = pow2(150);
    vstd::arithmetic::power2::lemma_pow2_pos(150);
    let a = p as nat * k;
    let c = r as nat * k;
    let x = Scalar::ratio(p, q);
    let y = Scalar::ratio(r, s);
    lemma_nearest_exists(a / q as nat, a % q as nat == 0);
    lemma_nearest_exists(c / s as nat, c % s as nat == 0);
    lemma_magnitude_sign(x.code() as int);
    lemma_magnitude_sign(y.code() as int);
    law_negation(x, y);
    if p * s <= r * q {
        assert(a * s <= c * q) by (nonlinear_arith)
            requires
                p * s <= r * q,
                a == p * k,
                c == r * k,
                k > 0,
        ;
        lemma_quotient_order(a, q as nat, c, s as nat);
        law_rounding_is_monotonic(
            a / q as nat,
            a % q as nat == 0,
            c / s as nat,
            c % s as nat == 0,
        );
        if x.code() < y.code() {
            lemma_magnitude_increases(x.code() as int, y.code() as int);
        }
    }
}

/// Rounded fractions are finite, and positive unless the fraction is zero.
pub proof fn law_ratio_is_finite(p: u32, q: u32)
    requires
        q > 0,
    ensures
        Scalar::ratio(p, q).is_finite(),
        !Scalar::ratio(p, q).is_negative(),
        p > 0 ==> Scalar::ratio(p, q).code() != 0,
{
    reveal(Scalar::spec_ratio);
    let num = p as nat * pow2(150);
    let whole = num / q as nat;
    let top = INF_CODE - 1;
    lemma_nearest_exists(whole, num % q as nat == 0);
    lemma_magnitude_sign(top);
    lemma_magnitude_increases(top, top + 1);
    vstd::arithmetic::power2::lemma2_to64();
    vstd::arithmetic::power2::lemma_pow2_pos(150);
    vstd::arithmetic::power2::lemma_pow2_adds(32, 150);
    vstd::arithmetic::power2::lemma_pow2_strictly_increases(182, 253);
    assert(num <= pow2(32) * pow2(150)) by (nonlinear_arith)
        requires
            num == p * pow2(150),
            p <= pow2(32),
    ;
    vstd::arithmetic::div_mod::lemma_div_nonincreasing(num as int, q as int);
    assert(scale(top) == 253 && significand(top) == 0xff_ffff);
    assert(magnitude(top) >= pow2(253)) by (nonlinear_arith)
        requires
            magnitude(top) == 0xff_ffff * pow2(253),
    ;
    if p > 0 {
        assert(magnitude(0) == 0 && magnitude(1) == 1) by {
            assert(0int * pow2(0) == 0 && 1int * pow2(0) == 1);
        }
        vstd::arithmetic::power2::lemma2_to64_rest();
        vstd::arithmetic::power2::lemma_pow2_strictly_increases(33, 150);
        vstd::arithmetic::div_mod::lemma_fundamental_div_mod(num as int, q as int);
        assert(num >= pow2(150)) by (nonlinear_arith)
            requires
                num == p * pow2(150),
                p >= 1,
        ;
        assert(whole >= 2) by (nonlinear_arith)
            requires
                num == q * whole + num % (q as nat),
                num % (q as nat) < q,
                q < 0x1_0000_0000,
                num >= 0x2_0000_0000,
        ;
    }
}

/// A sum is a number unless a term is none or infinities of opposite signs meet, and a difference
/// unless infinities of the same sign meet.
pub proof fn law_sum_is_number(a: Scalar, b: Scalar)
    requires
        !a.is_nan(),
        !b.is_nan(),
    ensures
        a.is_finite() || b.is_finite() || a.is_negative() == b.is_negative() ==> !a.plus(
            b,
        ).is_nan(),
        a.is_finite() || b.is_finite() || a.is_negative() != b.is_negative() ==> !a.minus(
            b,
        ).is_nan(),
{
    reveal(Scalar::spec_plus);
    law_negation(b, b);
    lemma_rounded_sum(a, b);
    lemma_rounded_sum(a, b.negated());
    lemma_nearest_exists(0, true);
}

proof fn lemma_rounded_sum(a: Scalar, b: Scalar)
    ensures
        ({
            let sum = a.units() + b.units();
            let size = (if sum < 0 {
                -sum
            } else {
                sum
            }) as nat;
            nearest(2 * size / 1, 2 * size % 1 == 0) <= INF_CODE
        }),
{
    let sum = a.units() + b.units();
    let size = (if sum < 0 {
        -sum
    } else {
        sum
    }) as nat;
    lemma_nearest_exists(2 * size / 1, 2 * size % 1 == 0);
}

/// A finite number stays finite when a rounded fraction is added; an infinite one stays as it is.
pub proof fn law_sum_with_ratio(p: u32, q: u32, a: Scalar)
    requires
        q > 0,
        !a.is_nan(),
    ensures
        a.is_finite() ==> Scalar::ratio(p, q).plus(a).is_finite(),
        !a.is_finite() ==> Scalar::ratio(p, q).plus(a) == a,
{
    reveal(Scalar::spec_plus);
    reveal(Scalar::spec_ratio);
    let b = Scalar::ratio(p, q);
    let top = INF_CODE - 1;
    let bound = 0x4f80_0000u32;
    let num = p as nat * pow2(150);
    law_ratio_is_finite(p, q);
    assert(scale(bound as int) == 158 && significand(bound as int) == 0x80_0000);
    vstd::arithmetic::power2::lemma2_to64();
    vstd::arithmetic::power2::lemma_pow2_pos(150);
    vstd::arithmetic::power2::lemma_pow2_adds(23, 158);
    vstd::arithmetic::power2::lemma_pow2_adds(32, 150);
    vstd::arithmetic::power2::lemma_pow2_unfold(182);
    vstd::arithmetic::power2::lemma_pow2_strictly_increases(181, 252);
    vstd::arithmetic::power2::lemma_pow2_unfold(253);
    assert(num <= 2 * magnitude(bound as int)) by (nonlinear_arith)
        requires
            num == p * pow2(150),
            p <= 0x1_0000_0000,
            0x1_0000_0000 * pow2(150) == 2 * magnitude(bound as int),
    ;
    assert(num * 1 <= (2 * magnitude(bound as int)) * q) by (nonlinear_arith)
        requires
            0 <= num <= 2 * magnitude(bound as int),
            q >= 1,
    ;
    lemma_quotient_order(num, q as nat, (2 * magnitude(bound as int)) as nat, 1);
    law_rounding_is_monotonic(
        num / q as nat,
        num % q as nat == 0,
        (2 * magnitude(bound as int)) as nat,
        true,
    );
    law_rounding_keeps_numbers(bound);
    lemma_nearest_exists(num / q as nat, num % q as nat == 0);
    if b.code() < bound {
        lemma_magnitude_increases(b.code() as int, bound as int);
    }
    lemma_magnitude_sign(b.code() as int);
    if a.is_finite() {
        lemma_magnitude_sign(a.code() as int);
        if a.code() < top {
            lemma_magnitude_increases(a.code() as int, top);
        }
        lemma_magnitude_step(top);
        assert(scale(top) == 253);
        let sum = b.units() + a.units();
        let size = (if sum < 0 {
            -sum
        } else {
            sum
        }) as nat;
        lemma_rounded_sum(b, a);
        lemma_nearest_exists(2 * size / 1, 2 * size % 1 == 0);
    }
}

/// A product is a number unless a factor is none or zero meets infinity.
pub proof fn law_product_is_number(a: Scalar, b: Scalar)
    requires
        !a.is_nan(),
        !b.is_nan(),
        a.is_finite() && b.is_finite() || a.code() != 0 && b.code() != 0,
    ensures
        !a.times(b).is_nan(),
{
    reveal(Scalar::spec_times);
    let num = (magnitude(a.code() as int) * magnitude(b.code() as int)) as nat;
    lemma_nearest_exists(num / pow2(148), num % pow2(148) == 0);
}

/// An infinite number times a positive one is as it was.
pub proof fn law_product_of_infinity(a: Scalar, b: Scalar)
    requires
        !a.is_nan(),
        !a.is_finite(),
        b.is_finite(),
        !b.is_negative(),
        b.code() != 0,
    ensures
        a.times(b) == a,
{
    reveal(Scalar::spec_times);
}

/// What lies between two finite numbers is finite.
pub proof fn law_between_is_finite(low: Scalar, x: Scalar, high: Scalar)
    requires
        low.is_finite(),
        high.is_finite(),
        low.le(x),
        x.le(high),
    ensures
        x.is_finite(),
{
    reveal(Scalar::spec_le);
    lemma_magnitude_increases(low.code() as int, INF_CODE as int);
    lemma_magnitude_increases(high.code() as int, INF_CODE as int);
    lemma_magnitude_sign(low.code() as int);
    lemma_magnitude_sign(high.code() as int);
}

/// What is at least a positive number is not zero.
pub proof fn law_above_positive_is_not_zero(low: Scalar, x: Scalar)
    requires
        low.code() != 0,
        !low.is_negative(),
        low.le(x),
    ensures
        x.code() != 0,
{
    reveal(Scalar::spec_le);
    lemma_magnitude_sign(low.code() as int);
    lemma_magnitude_sign(0);
}

/// A number that the format holds is not changed by rounding.
pub proof fn law_rounding_keeps_numbers(code: u32)
    requires
        code < INF_CODE,
    ensures
        nearest((2 * magnitude(code as int)) as nat, true) == code,
{
    let c = code as int;
    lemma_magnitude_sign(c);
    lemma_magnitude_increases(c, c + 1);
    if c > 0 {
        lemma_magnitude_increases(c - 1, c);
    }
    lemma_nearest_is(code, (2 * magnitude(c)) as nat, true);
}

/// The number one.
pub proof fn law_one()
    ensures
        Scalar::ratio(1, 1).code() == 0x3f80_0000,
        Scalar::ratio(1, 1).is_finite(),
        !Scalar::ratio(1, 1).is_negative(),
        magnitude(0x3f80_0000) == pow2(149),
{
    reveal(Scalar::spec_ratio);
    let one = 0x3f80_0000int;
    assert(scale(one) == 126 && significand(one) == 0x80_0000);
    vstd::arithmetic::power2::lemma2_to64();
    vstd::arithmetic::power2::lemma_pow2_adds(23, 126);
    vstd::arithmetic::power2::lemma_pow2_unfold(150);
    vstd::arithmetic::power2::lemma_pow2_pos(149);
    law_rounding_keeps_numbers(0x3f80_0000);
    assert(1 * pow2(150) == 2 * pow2(149));
}

/// The number one half.
pub proof fn law_half()
    ensures
        Scalar::ratio(5, 10).is_finite(),
        Scalar::ratio(5, 10).units() == pow2(148),
{
    reveal(Scalar::spec_ratio);
    let half = 0x3f00_0000int;
    assert(scale(half) == 125 && significand(half) == 0x80_0000);
    vstd::arithmetic::power2::lemma2_to64();
    vstd::arithmetic::power2::lemma_pow2_adds(23, 125);
    vstd::arithmetic::power2::lemma_pow2_unfold(149);
    vstd::arithmetic::power2::lemma_pow2_unfold(150);
    law_rounding_keeps_numbers(0x3f00_0000);
    vstd::arithmetic::div_mod::lemma_fundamental_div_mod_converse(
        5 * pow2(150) as int,
        10,
        pow2(149) as int,
        0,
    );
}

/// Multiplying by one changes nothing.
pub proof fn law_one_is_neutral(x: Scalar)
    requires
        !x.is_nan(),
    ensures
        x.times(Scalar::ratio(1, 1)) == x,
        Scalar::ratio(1, 1).times(x) == x,
{
    let one = Scalar::ratio(1, 1);
    law_one();
    law_commutes(x, one);
    reveal(Scalar::spec_times);
    lemma_magnitude_sign(x.code() as int);
    if x.is_finite() {
        let m = magnitude(x.code() as int);
        vstd::arithmetic::power2::lemma_pow2_unfold(149);
        vstd::arithmetic::power2::lemma_pow2_pos(148);
        assert(m * pow2(149) == (2 * m) * pow2(148)) by (nonlinear_arith)
            requires
                pow2(149) == 2 * pow2(148),
        ;
        vstd::arithmetic::div_mod::lemma_fundamental_div_mod_converse(
            m * pow2(149),
            pow2(148) as int,
            2 * m,
            0,
        );
        law_rounding_keeps_numbers(x.code());
    }
}

/// The sign of a factor is the sign of the product.
pub proof fn law_negation_of_product(a: Scalar, b: Scalar)
    requires
        !a.times(b).is_nan(),
    ensures
        a.negated().times(b) == a.times(b).negated(),
        a.times(b.negated()) == a.times(b).negated(),
{
    reveal(Scalar::spec_times);
    let num = (magnitude(a.code() as int) * magnitude(b.code() as int)) as nat;
    lemma_nearest_exists(num / pow2(148), num % pow2(148) == 0);
}

/// A number times a factor between -1 and 1 lies between the number's opposite and the number,
/// and on the side of zero that the factor is on.
pub proof fn law_product_with_part(a: Scalar, b: Scalar)
    requires
        a.is_finite(),
        !a.is_negative(),
        Scalar::ratio(1, 1).negated().le(b),
        b.le(Scalar::ratio(1, 1)),
    ensures
        a.negated().le(a.times(b)),
        a.times(b).le(a),
        Scalar::ratio(0, 1).le(b) ==> Scalar::ratio(0, 1).le(a.times(b)),
        b.le(Scalar::ratio(0, 1)) ==> a.times(b).le(Scalar::ratio(0, 1)),
{
    reveal(Scalar::spec_le);
    law_one();
    law_zero();
    let one = Scalar::ratio(1, 1);
    let ma = magnitude(a.code() as int);
    let mb = magnitude(b.code() as int);
    lemma_magnitude_sign(a.code() as int);
    lemma_magnitude_sign(b.code() as int);
    lemma_magnitude_sign(0);
    assert(mb <= pow2(149));
    if b.code() > one.code() {
        lemma_magnitude_increases(one.code() as int, b.code() as int);
    }
    assert(b.is_finite());
    reveal(Scalar::spec_times);
    let num = (ma * mb) as nat;
    let den = pow2(148);
    vstd::arithmetic::power2::lemma_pow2_pos(148);
    vstd::arithmetic::power2::lemma_pow2_unfold(149);
    assert(0 <= ma * mb <= (2 * ma) * den) by (nonlinear_arith)
        requires
            0 <= ma,
            0 <= mb <= 2 * den,
    ;
    lemma_quotient_order(num, den, (2 * ma) as nat, 1);
    law_rounding_is_monotonic(num / den, num % den == 0, (2 * ma) as nat, true);
    law_rounding_keeps_numbers(a.code());
    lemma_nearest_exists(num / den, num % den == 0);
    let p = a.times(b);
    lemma_magnitude_sign(p.code() as int);
    if p.code() < a.code() {
        lemma_magnitude_increases(p.code() as int, a.code() as int);
    }
    if mb == 0 {
        assert(ma * mb == 0) by (nonlinear_arith)
            requires
                mb == 0,
        ;
        vstd::arithmetic::div_mod::lemma_div_of0(den as int);
        vstd::arithmetic::div_mod::lemma_small_mod(0, den);
        law_rounding_keeps_numbers(0);
    }
}

/// The number zero.
pub proof fn law_zero()
    ensures
        Scalar::ratio(0, 1).bits == 0,
        Scalar::ratio(0, 1).units() == 0,
{
    reveal(Scalar::spec_ratio);
    lemma_magnitude_sign(0);
    law_rounding_keeps_numbers(0);
    assert(0 * pow2(150) == 0);
}

/// The reciprocal of a number of at least one lies between zero and one.
pub proof fn law_reciprocal_is_at_most_one(x: Scalar)
    requires
        Scalar::ratio(1, 1).le(x),
    ensures
        Scalar::ratio(0, 1).le(Scalar::ratio(1, 1).over(x)),
        Scalar::ratio(1, 1).over(x).le(Scalar::ratio(1, 1)),
{
    reveal(Scalar::spec_le);
    reveal(Scalar::spec_over);
    law_one();
    law_zero();
    let one = Scalar::ratio(1, 1);
    let m = magnitude(x.code() as int);
    let unit = pow2(149);
    lemma_magnitude_sign(x.code() as int);
    lemma_magnitude_sign(0);
    vstd::arithmetic::power2::lemma_pow2_pos(149);
    vstd::arithmetic::power2::lemma_pow2_unfold(150);
    let num = (unit * pow2(150)) as nat;
    assert(num <= (2 * unit) * m) by (nonlinear_arith)
        requires
            num == unit * (2 * unit),
            m >= unit,
    ;
    lemma_quotient_order(num, m as nat, 2 * unit, 1);
    law_rounding_is_monotonic(num / m as nat, num % m as nat == 0, 2 * unit, true);
    law_rounding_keeps_numbers(one.code());
    lemma_nearest_exists(num / m as nat, num % m as nat == 0);
    let r = one.over(x);
    lemma_magnitude_sign(r.code() as int);
    if r.code() < one.code() {
        lemma_magnitude_increases(r.code() as int, one.code() as int);
    }
}

/// The larger of two numbers is the one that the other one is less than, and the smaller one is the
/// other one.
pub proof fn law_larger_and_smaller(a: Scalar, b: Scalar)
    ensures
        a.lt(b) ==> a.max(b) == b && b.max(a) == b && a.min(b) == a && b.min(a) == a,
        a.is_nan() ==> a.max(b) == b && a.min(b) == b,
        b.is_nan() && !a.is_nan() ==> a.max(b) == a && a.min(b) == a,
        a.max(a) == a && a.min(a) == a,
{
    reveal(Scalar::spec_lt);
}

/// A clamped number is the bound that it lies beyond, or itself.
pub proof fn law_clamp_stops_at_bounds(x: Scalar, low: Scalar, high: Scalar)
    requires
        low.le(high),
    ensures
        x.lt(low) ==> x.clamp(low, high) == low,
        high.lt(x) ==> x.clamp(low, high) == high,
        !x.lt(low) && !high.lt(x) ==> x.clamp(low, high) == x,
{
    reveal(Scalar::spec_lt);
    reveal(Scalar::spec_le);
}

/// A number without its sign has the same size and is not negative; its sign is one with that sign.
pub proof fn law_size_and_sign(x: Scalar)
    ensures
        x.abs().units() == if x.units() < 0 {
            -x.units()
        } else {
            x.units()
        },
        !x.abs().is_negative(),
        x.negated().abs() == x.abs(),
        x.is_nan() <==> x.abs().is_nan(),
        !x.is_nan() && !x.is_negative() ==> x.signum() == Scalar::ratio(1, 1),
        !x.is_nan() && x.is_negative() ==> x.signum() == Scalar::ratio(1, 1).negated(),
        x.is_nan() ==> x.signum().is_nan(),
{
    lemma_magnitude_sign(x.code() as int);
}

/// Subtracting is adding the opposite.
pub proof fn law_difference_is_sum_with_opposite(a: Scalar, b: Scalar)
    ensures
        a.minus(b) == a.plus(b.negated()),
        a.minus(b.negated()) == a.plus(b),
{
    law_negation(b, b);
}

} // verus!
