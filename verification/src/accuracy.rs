//! How far rounded results are from exact ones, and how they follow their operands.

use crate::order::{law_rounding_is_monotonic, law_rounding_keeps_numbers};
use crate::rounding::{lemma_magnitude_increases, lemma_magnitude_step, lemma_nearest_exists};
use crate::rounding::{magnitude, nearest, scale, significand, HIDDEN, INF_CODE};
use crate::scalar::{lemma_magnitude_sign, Scalar};
use vstd::arithmetic::power2::pow2;
use vstd::prelude::*;

verus! {

/// The size of an integer.
pub open spec fn size(v: int) -> int {
    if v < 0 {
        -v
    } else {
        v
    }
}

/// The last place of a magnitude is a unit, or at most `2^-23` of the magnitude.
pub proof fn lemma_last_place(code: int)
    requires
        0 <= code,
    ensures
        scale(code) == 0 || 0x80_0000 * pow2(scale(code)) <= magnitude(code),
{
    if scale(code) > 0 {
        assert(significand(code) >= HIDDEN) by {
            let q = code / (HIDDEN as int);
            assert(q * HIDDEN <= code) by (nonlinear_arith)
                requires
                    q == code / (HIDDEN as int),
                    code >= 0,
                    HIDDEN == 0x80_0000u32,
            ;
            assert((q - 1) * HIDDEN == q * HIDDEN - HIDDEN) by (nonlinear_arith);
        }
        assert(0x80_0000 * pow2(scale(code)) <= significand(code) * pow2(scale(code)))
            by (nonlinear_arith)
            requires
                significand(code) >= 0x80_0000,
        ;
    }
}

/// The nearest magnitude is at most half its last place away from the real number `num / den`,
/// which is given in units of `2^-150`.
pub proof fn lemma_nearest_error(num: nat, den: nat)
    requires
        den > 0,
        nearest(num / den, num % den == 0) < INF_CODE,
    ensures
        ({
            let code = nearest(num / den, num % den == 0) as int;
            size(num - 2 * (magnitude(code) * den)) <= den * pow2(scale(code))
        }),
{
    let whole = num / den;
    let code = nearest(whole, num % den == 0) as int;
    lemma_nearest_exists(whole, num % den == 0);
    lemma_magnitude_step(code);
    lemma_magnitude_sign(code);
    vstd::arithmetic::div_mod::lemma_fundamental_div_mod(num as int, den as int);
    let m = magnitude(code);
    let p = pow2(scale(code)) as int;
    let rest = (num % den) as int;
    vstd::arithmetic::power2::lemma_pow2_pos(scale(code));
    assert(num <= den * (2 * m + p)) by (nonlinear_arith)
        requires
            num == den * whole + rest,
            0 <= rest < den,
            whole < 2 * m + p || whole == 2 * m + p && rest == 0,
            den > 0,
    ;
    if code > 0 {
        lemma_magnitude_step(code - 1);
        let q = pow2(scale(code - 1)) as int;
        assert(q <= p) by {
            if scale(code - 1) < scale(code) {
                vstd::arithmetic::power2::lemma_pow2_strictly_increases(
                    scale(code - 1),
                    scale(code),
                );
            }
        }
        assert(num >= den * (2 * m - p)) by (nonlinear_arith)
            requires
                num == den * whole + rest,
                0 <= rest,
                whole >= 2 * m - q,
                q <= p,
                den > 0,
        ;
    } else {
        assert(num >= den * (2 * m - p)) by (nonlinear_arith)
            requires
                num >= 0,
                m == 0,
                p > 0,
                den > 0,
        ;
    }
    assert(den * (2 * m + p) == 2 * (m * den) + den * p) by (nonlinear_arith);
    assert(den * (2 * m - p) == 2 * (m * den) - den * p) by (nonlinear_arith);
}

/// A whole number of units, rounded.
pub open spec fn rounded_units(v: int) -> int {
    if v < 0 {
        -magnitude(nearest((2 * -v) as nat, true) as int)
    } else {
        magnitude(nearest((2 * v) as nat, true) as int)
    }
}

/// A sum of finite numbers is the exact sum, rounded.
pub proof fn lemma_sum_units(a: Scalar, b: Scalar)
    requires
        a.is_finite(),
        b.is_finite(),
    ensures
        !a.plus(b).is_nan(),
        a.plus(b).units() == rounded_units(a.units() + b.units()),
{
    reveal(Scalar::spec_plus);
    let sum = a.units() + b.units();
    let s = size(sum) as nat;
    law_rounding_keeps_numbers(0);
    lemma_magnitude_sign(0);
    lemma_nearest_exists(2 * s, true);
    assert(2 * s / 1 == 2 * s && 2 * s % 1 == 0);
    lemma_magnitude_sign(nearest(2 * s, true) as int);
}

/// Rounding keeps the order of whole numbers of units.
pub proof fn lemma_rounded_units_order(v: int, w: int)
    requires
        v <= w,
    ensures
        rounded_units(v) <= rounded_units(w),
{
    let c = nearest((2 * size(v)) as nat, true);
    let d = nearest((2 * size(w)) as nat, true);
    lemma_nearest_exists((2 * size(v)) as nat, true);
    lemma_nearest_exists((2 * size(w)) as nat, true);
    lemma_magnitude_sign(c as int);
    lemma_magnitude_sign(d as int);
    if v >= 0 {
        law_rounding_is_monotonic((2 * v) as nat, true, (2 * w) as nat, true);
        if c < d {
            lemma_magnitude_increases(c as int, d as int);
        }
    } else if w < 0 {
        law_rounding_is_monotonic((2 * -w) as nat, true, (2 * -v) as nat, true);
        if d < c {
            lemma_magnitude_increases(d as int, c as int);
        }
    }
}

/// What the format holds is not changed by rounding.
pub proof fn lemma_rounded_units_keeps(x: Scalar)
    requires
        x.is_finite(),
    ensures
        rounded_units(x.units()) == x.units(),
        rounded_units(-x.units()) == -x.units(),
{
    law_rounding_keeps_numbers(x.code());
    lemma_magnitude_sign(x.code() as int);
    law_rounding_keeps_numbers(0);
}

/// A sum of finite numbers differs from the exact sum by at most `2^-24` of itself.
pub proof fn law_sum_is_close(a: Scalar, b: Scalar)
    requires
        a.is_finite(),
        b.is_finite(),
        a.plus(b).is_finite(),
    ensures
        0x100_0000 * size(a.plus(b).units() - (a.units() + b.units())) <= size(a.plus(b).units()),
{
    reveal(Scalar::spec_plus);
    lemma_sum_units(a, b);
    let v = size(a.units() + b.units());
    let c = nearest((2 * v) as nat, true) as int;
    law_rounding_keeps_numbers(0);
    lemma_magnitude_sign(0);
    assert((2 * v) as nat / 1 == 2 * v && (2 * v) as nat % 1 == 0);
    lemma_nearest_exists((2 * v) as nat, true);
    lemma_nearest_error((2 * v) as nat, 1);
    lemma_last_place(c);
    lemma_magnitude_sign(c);
    let p = pow2(scale(c)) as int;
    assert(size(2 * v - 2 * magnitude(c)) <= p);
    if scale(c) == 0 {
        vstd::arithmetic::power2::lemma2_to64();
    }
}

/// A product of finite numbers differs from the exact product by at most `2^-24` of itself and half
/// a unit.
pub proof fn law_product_is_close(a: Scalar, b: Scalar)
    requires
        a.is_finite(),
        b.is_finite(),
        a.times(b).is_finite(),
    ensures
        0x100_0000 * size(a.times(b).units() * pow2(149) - a.units() * b.units()) <= size(
            a.times(b).units(),
        ) * pow2(149) + 0x80_0000 * pow2(149),
{
    reveal(Scalar::spec_times);
    let ma = magnitude(a.code() as int);
    let mb = magnitude(b.code() as int);
    lemma_magnitude_sign(a.code() as int);
    lemma_magnitude_sign(b.code() as int);
    assert(ma * mb >= 0) by (nonlinear_arith)
        requires
            ma >= 0,
            mb >= 0,
    ;
    let num = (ma * mb) as nat;
    let den = pow2(148);
    vstd::arithmetic::power2::lemma_pow2_pos(148);
    vstd::arithmetic::power2::lemma_pow2_unfold(149);
    let c = nearest(num / den, num % den == 0) as int;
    lemma_nearest_exists(num / den, num % den == 0);
    lemma_nearest_error(num, den);
    lemma_last_place(c);
    lemma_magnitude_sign(c);
    let m = magnitude(c);
    let p = pow2(scale(c)) as int;
    let u = pow2(149) as int;
    assert(2 * (m * den) == m * u) by (nonlinear_arith)
        requires
            u == 2 * den,
    ;
    if scale(c) == 0 {
        vstd::arithmetic::power2::lemma2_to64();
        assert(den * p == den);
    } else {
        assert(0x100_0000 * (den * p) <= m * u) by (nonlinear_arith)
            requires
                0x80_0000 * p <= m,
                u == 2 * den,
                den > 0,
        ;
    }
    assert(m * u >= 0) by (nonlinear_arith)
        requires
            m >= 0,
            u >= 0,
    ;
    let z = a.times(b);
    let negative = a.is_negative() != b.is_negative();
    lemma_product_sign(a, b);
    assert(z.is_negative() == negative && z.code() == c);
    assert((-m) * u == -(m * u)) by (nonlinear_arith);
    assert(size(z.units() * u - a.units() * b.units()) == size(num - m * u));
}

/// The signs of finite factors and of the exact product.
proof fn lemma_product_sign(a: Scalar, b: Scalar)
    ensures
        ({
            let num = magnitude(a.code() as int) * magnitude(b.code() as int);
            let negative = a.is_negative() != b.is_negative();
            &&& negative ==> a.units() * b.units() == -num
            &&& !negative ==> a.units() * b.units() == num
            &&& num >= 0
        }),
{
    let ma = magnitude(a.code() as int);
    let mb = magnitude(b.code() as int);
    lemma_magnitude_sign(a.code() as int);
    lemma_magnitude_sign(b.code() as int);
    assert(ma * mb >= 0) by (nonlinear_arith)
        requires
            ma >= 0,
            mb >= 0,
    ;
    assert((-ma) * mb == -(ma * mb) && ma * (-mb) == -(ma * mb) && (-ma) * (-mb) == ma * mb)
        by (nonlinear_arith);
}

/// A sum follows its terms.
pub proof fn law_sum_is_monotonic(a: Scalar, b: Scalar, c: Scalar)
    requires
        a.is_finite(),
        b.is_finite(),
        c.is_finite(),
        b.le(c),
    ensures
        a.plus(b).le(a.plus(c)),
        b.plus(a).le(c.plus(a)),
{
    reveal(Scalar::spec_le);
    lemma_sum_units(a, b);
    lemma_sum_units(a, c);
    lemma_rounded_units_order(a.units() + b.units(), a.units() + c.units());
    crate::order::law_commutes(a, b);
    crate::order::law_commutes(a, c);
}

/// Adding what is not negative makes no number less, and adding what is not positive makes none
/// greater.
pub proof fn law_sum_follows_sign(a: Scalar, b: Scalar)
    requires
        a.is_finite(),
        b.is_finite(),
    ensures
        Scalar::ratio(0, 1).le(b) ==> a.le(a.plus(b)),
        b.le(Scalar::ratio(0, 1)) ==> a.plus(b).le(a),
{
    reveal(Scalar::spec_le);
    crate::order::law_zero();
    lemma_sum_units(a, b);
    lemma_rounded_units_keeps(a);
    if b.units() >= 0 {
        lemma_rounded_units_order(a.units(), a.units() + b.units());
    }
    if b.units() <= 0 {
        lemma_rounded_units_order(a.units() + b.units(), a.units());
    }
}

/// Adding zero keeps the value, and keeps every number but zero, whose sign may change.
pub proof fn law_sum_with_zero(a: Scalar, zero: Scalar)
    requires
        !a.is_nan(),
        zero.code() == 0,
    ensures
        !a.plus(zero).is_nan(),
        a.plus(zero).units() == a.units(),
        a.plus(zero).code() == a.code(),
        a.code() != 0 ==> a.plus(zero) == a,
        zero.plus(a) == a.plus(zero),
{
    reveal(Scalar::spec_plus);
    crate::order::law_commutes(a, zero);
    lemma_magnitude_sign(0);
    lemma_magnitude_sign(a.code() as int);
    if a.is_finite() {
        law_rounding_keeps_numbers(a.code());
        let v = size(a.units());
        assert((2 * v) as nat / 1 == 2 * v && (2 * v) as nat % 1 == 0);
        assert(Scalar::signed(a.is_negative(), a.code()) == a);
    }
}

/// A finite number times zero is zero.
pub proof fn law_product_with_zero(a: Scalar, zero: Scalar)
    requires
        a.is_finite(),
        zero.code() == 0,
    ensures
        a.times(zero).code() == 0,
        zero.times(a).code() == 0,
{
    reveal(Scalar::spec_times);
    crate::order::law_commutes(a, zero);
    lemma_magnitude_sign(0);
    let ma = magnitude(a.code() as int);
    assert(ma * 0 == 0);
    vstd::arithmetic::power2::lemma_pow2_pos(148);
    vstd::arithmetic::div_mod::lemma_div_of0(pow2(148) as int);
    vstd::arithmetic::div_mod::lemma_small_mod(0, pow2(148));
    law_rounding_keeps_numbers(0);
}

/// The product with a number that is not negative follows the other factor.
pub proof fn law_product_is_monotonic(a: Scalar, b: Scalar, c: Scalar)
    requires
        a.is_finite(),
        b.is_finite(),
        c.is_finite(),
        Scalar::ratio(0, 1).le(a),
        Scalar::ratio(0, 1).le(b),
        b.le(c),
    ensures
        a.times(b).le(a.times(c)),
        Scalar::ratio(0, 1).le(a.times(b)),
{
    reveal(Scalar::spec_le);
    crate::order::law_zero();
    let ma = magnitude(a.code() as int);
    let mb = magnitude(b.code() as int);
    let mc = magnitude(c.code() as int);
    lemma_magnitude_sign(a.code() as int);
    lemma_magnitude_sign(b.code() as int);
    lemma_magnitude_sign(c.code() as int);
    if a.code() == 0 {
        law_product_with_zero(b, a);
        law_product_with_zero(c, a);
        lemma_magnitude_sign(0);
    } else if b.code() == 0 {
        law_product_with_zero(a, b);
        lemma_magnitude_sign(0);
        lemma_product_is_not_negative(a, c);
    } else {
        reveal(Scalar::spec_times);
        let den = pow2(148);
        vstd::arithmetic::power2::lemma_pow2_pos(148);
        assert(0 <= ma * mb <= ma * mc) by (nonlinear_arith)
            requires
                0 <= ma,
                0 <= mb <= mc,
        ;
        let v = (ma * mb) as nat;
        let w = (ma * mc) as nat;
        assert(v * den <= w * den) by (nonlinear_arith)
            requires
                v <= w,
        ;
        crate::order::lemma_quotient_order(v, den, w, den);
        law_rounding_is_monotonic(v / den, v % den == 0, w / den, w % den == 0);
        lemma_nearest_exists(v / den, v % den == 0);
        lemma_nearest_exists(w / den, w % den == 0);
        let x = nearest(v / den, v % den == 0) as int;
        let y = nearest(w / den, w % den == 0) as int;
        lemma_magnitude_sign(x);
        if x < y {
            lemma_magnitude_increases(x, y);
        }
    }
}

/// The product of numbers that are not negative is not negative.
proof fn lemma_product_is_not_negative(a: Scalar, b: Scalar)
    requires
        a.is_finite(),
        b.is_finite(),
        a.units() >= 0,
        b.units() >= 0,
    ensures
        !a.times(b).is_nan(),
        a.times(b).units() >= 0,
{
    lemma_magnitude_sign(a.code() as int);
    lemma_magnitude_sign(b.code() as int);
    lemma_magnitude_sign(0);
    if a.code() == 0 {
        law_product_with_zero(b, a);
    } else if b.code() == 0 {
        law_product_with_zero(a, b);
    } else {
        reveal(Scalar::spec_times);
        let num = (magnitude(a.code() as int) * magnitude(b.code() as int)) as nat;
        let den = pow2(148);
        lemma_nearest_exists(num / den, num % den == 0);
        lemma_magnitude_sign(nearest(num / den, num % den == 0) as int);
    }
}

/// A number that is not negative, times a factor of at least one, is at least the number.
pub proof fn law_product_with_whole(a: Scalar, b: Scalar)
    requires
        a.is_finite(),
        Scalar::ratio(0, 1).le(a),
        Scalar::ratio(1, 1).le(b),
        b.is_finite() || a.code() != 0,
    ensures
        a.le(a.times(b)),
{
    let one = Scalar::ratio(1, 1);
    crate::order::law_one();
    crate::order::law_order_is_total(one, b);
    if b.is_finite() {
        crate::order::law_ratio_order(0, 1, 1, 1);
        crate::order::law_one_is_neutral(a);
        law_product_is_monotonic(a, one, b);
    } else {
        reveal(Scalar::spec_le);
        reveal(Scalar::spec_times);
        crate::order::law_zero();
        lemma_magnitude_sign(a.code() as int);
        lemma_magnitude_sign(INF_CODE as int);
        lemma_magnitude_sign(b.code() as int);
        lemma_magnitude_sign(one.code() as int);
        lemma_magnitude_increases(a.code() as int, INF_CODE as int);
    }
}

/// The product of two rounded positive fractions is positive.
pub proof fn law_product_of_ratios(p: u32, q: u32, r: u32, s: u32)
    requires
        p > 0,
        q > 0,
        r > 0,
        s > 0,
    ensures
        Scalar::ratio(0, 1).lt(Scalar::ratio(p, q).times(Scalar::ratio(r, s))),
{
    reveal(Scalar::spec_times);
    reveal(Scalar::spec_lt);
    crate::order::law_zero();
    crate::order::law_ratio_is_finite(p, q);
    crate::order::law_ratio_is_finite(r, s);
    lemma_ratio_is_not_tiny(p, q);
    lemma_ratio_is_not_tiny(r, s);
    let ma = magnitude(Scalar::ratio(p, q).code() as int);
    let mb = magnitude(Scalar::ratio(r, s).code() as int);
    let den = pow2(148);
    vstd::arithmetic::power2::lemma_pow2_pos(148);
    vstd::arithmetic::power2::lemma_pow2_unfold(149);
    vstd::arithmetic::power2::lemma_pow2_adds(100, 100);
    vstd::arithmetic::power2::lemma_pow2_strictly_increases(149, 200);
    assert(ma * mb >= pow2(100) * pow2(100)) by (nonlinear_arith)
        requires
            ma >= pow2(100),
            mb >= pow2(100),
    ;
    let num = (ma * mb) as nat;
    lemma_magnitude_sign(1);
    lemma_magnitude_sign(0);
    law_rounding_keeps_numbers(1);
    assert(magnitude(1) == 1) by {
        vstd::arithmetic::power2::lemma2_to64();
        assert(1int * pow2(0) == 1);
    }
    crate::order::lemma_quotient_order(2, 1, num, den);
    law_rounding_is_monotonic(2, true, num / den, num % den == 0);
    lemma_nearest_exists(num / den, num % den == 0);
    lemma_magnitude_sign(nearest(num / den, num % den == 0) as int);
}

/// A rounded positive fraction is at least `2^-49`.
proof fn lemma_ratio_is_not_tiny(p: u32, q: u32)
    requires
        p > 0,
        q > 0,
    ensures
        magnitude(Scalar::ratio(p, q).code() as int) >= pow2(100),
{
    reveal(Scalar::spec_ratio);
    let bound = 0x2700_0000u32;
    let num = p as nat * pow2(150);
    assert(scale(bound as int) == 77 && significand(bound as int) == 0x80_0000);
    vstd::arithmetic::power2::lemma2_to64();
    vstd::arithmetic::power2::lemma_pow2_pos(150);
    vstd::arithmetic::power2::lemma_pow2_adds(23, 77);
    vstd::arithmetic::power2::lemma_pow2_unfold(101);
    vstd::arithmetic::power2::lemma_pow2_adds(32, 101);
    vstd::arithmetic::power2::lemma_pow2_strictly_increases(133, 150);
    let b = 2 * magnitude(bound as int);
    assert(b * q <= num) by (nonlinear_arith)
        requires
            b == pow2(101),
            q <= 0x1_0000_0000,
            0x1_0000_0000 * pow2(101) <= pow2(150),
            num == p * pow2(150),
            p >= 1,
    ;
    crate::order::lemma_quotient_order(b as nat, 1, num, q as nat);
    law_rounding_is_monotonic(b as nat, true, num / q as nat, num % q as nat == 0);
    law_rounding_keeps_numbers(bound);
    lemma_nearest_exists(num / q as nat, num % q as nat == 0);
    let c = nearest(num / q as nat, num % q as nat == 0);
    if bound < c {
        lemma_magnitude_increases(bound as int, c as int);
    }
}

/// Whether a number is finite and at most `k` times `2^24` units large, so that sums of its size are
/// exact up to `k` units.
pub open spec fn within(x: Scalar, k: nat) -> bool {
    x.is_finite() && size(x.units()) <= 0x100_0000 * k
}

/// A sum that is so large is exact up to `k` units.
pub proof fn law_sum_within(a: Scalar, b: Scalar, k: nat)
    requires
        a.is_finite(),
        b.is_finite(),
        within(a.plus(b), k),
    ensures
        size(a.plus(b).units() - (a.units() + b.units())) <= k,
{
    law_sum_is_close(a, b);
}

/// A product that is so large is exact up to `2 * k` units.
pub proof fn law_product_within(a: Scalar, b: Scalar, k: nat)
    requires
        k >= 1,
        a.is_finite(),
        b.is_finite(),
        within(a.times(b), k),
    ensures
        size(a.times(b).units() * pow2(149) - a.units() * b.units()) <= 2 * k * pow2(149),
{
    law_product_is_close(a, b);
    let u = pow2(149) as int;
    let z = size(a.times(b).units());
    let error = size(a.times(b).units() * u - a.units() * b.units());
    assert(error <= 2 * k * u) by (nonlinear_arith)
        requires
            0x100_0000 * error <= z * u + 0x80_0000 * u,
            z <= 0x100_0000 * k,
            u >= 0,
            k >= 1,
    ;
}

/// The square of the length of a vector of integers.
pub open spec fn square(x: int, y: int, z: int) -> int {
    x * x + y * y + z * z
}

/// A vector whose components are off by at most `t` is off in length by at most `2 * t`.
pub proof fn law_length_is_stable(w: (int, int, int), v: (int, int, int), low: int, high: int, t: int)
    requires
        size(v.0 - w.0) <= t,
        size(v.1 - w.1) <= t,
        size(v.2 - w.2) <= t,
        0 <= low,
        0 <= high,
        low * low <= square(w.0, w.1, w.2) <= high * high,
    ensures
        square(v.0, v.1, v.2) <= (high + 2 * t) * (high + 2 * t),
        low >= 2 * t ==> square(v.0, v.1, v.2) >= (low - 2 * t) * (low - 2 * t),
{
    lemma_length_grows(w, v, high, t);
    if low >= 2 * t && square(v.0, v.1, v.2) < (low - 2 * t) * (low - 2 * t) {
        lemma_length_grows_less(v, w, low - 2 * t, t);
    }
}

/// The sum of the sizes of the components is at most twice the length.
proof fn lemma_sum_of_sizes(w: (int, int, int), high: int)
    requires
        0 <= high,
        square(w.0, w.1, w.2) <= high * high,
    ensures
        size(w.0) + size(w.1) + size(w.2) <= 2 * high,
{
    let a = size(w.0);
    let b = size(w.1);
    let c = size(w.2);
    assert(a * a == w.0 * w.0 && b * b == w.1 * w.1 && c * c == w.2 * w.2) by (nonlinear_arith)
        requires
            a == w.0 || a == -w.0,
            b == w.1 || b == -w.1,
            c == w.2 || c == -w.2,
    ;
    assert((a + b + c) * (a + b + c) <= 3 * (a * a + b * b + c * c)) by (nonlinear_arith);
    assert(a + b + c <= 2 * high) by (nonlinear_arith)
        requires
            (a + b + c) * (a + b + c) <= 3 * (high * high),
            high >= 0,
    ;
}

/// The square of a component that is off by at most `t`.
proof fn lemma_square_grows(w: int, v: int, t: int)
    requires
        size(v - w) <= t,
    ensures
        v * v <= w * w + 2 * (size(w) * t) + t * t,
{
    let e = v - w;
    let a = size(w);
    assert(v * v == w * w + 2 * (w * e) + e * e) by (nonlinear_arith)
        requires
            v == w + e,
    ;
    assert(w * e <= a * t) by (nonlinear_arith)
        requires
            -t <= e <= t,
            a == w && w >= 0 || a == -w && w <= 0,
    ;
    assert(e * e <= t * t) by (nonlinear_arith)
        requires
            -t <= e <= t,
    ;
}

proof fn lemma_length_grows(w: (int, int, int), v: (int, int, int), high: int, t: int)
    requires
        size(v.0 - w.0) <= t,
        size(v.1 - w.1) <= t,
        size(v.2 - w.2) <= t,
        0 <= high,
        square(w.0, w.1, w.2) <= high * high,
    ensures
        square(v.0, v.1, v.2) <= square(w.0, w.1, w.2) + 4 * (high * t) + 4 * (t * t),
        square(v.0, v.1, v.2) <= (high + 2 * t) * (high + 2 * t),
{
    lemma_square_grows(w.0, v.0, t);
    lemma_square_grows(w.1, v.1, t);
    lemma_square_grows(w.2, v.2, t);
    lemma_sum_of_sizes(w, high);
    let a = size(w.0);
    let b = size(w.1);
    let c = size(w.2);
    assert(a * t + b * t + c * t <= 2 * (high * t)) by (nonlinear_arith)
        requires
            a + b + c <= 2 * high,
            t >= 0,
    ;
    assert(t * t >= 0) by (nonlinear_arith);
    assert((high + 2 * t) * (high + 2 * t) == high * high + 4 * (high * t) + 4 * (t * t))
        by (nonlinear_arith);
}

proof fn lemma_length_grows_less(w: (int, int, int), v: (int, int, int), high: int, t: int)
    requires
        size(v.0 - w.0) <= t,
        size(v.1 - w.1) <= t,
        size(v.2 - w.2) <= t,
        0 <= high,
        square(w.0, w.1, w.2) < high * high,
    ensures
        square(v.0, v.1, v.2) < (high + 2 * t) * (high + 2 * t),
{
    lemma_length_grows(w, v, high, t);
    assert((high + 2 * t) * (high + 2 * t) == high * high + 4 * (high * t) + 4 * (t * t))
        by (nonlinear_arith);
}

/// Stretching a vector by a factor stretches its length by the factor.
pub proof fn law_length_is_stretched(l: int, x: int, y: int, z: int)
    ensures
        square(l * x, l * y, l * z) == (l * l) * square(x, y, z),
{
    lemma_square_of_product(l, x);
    lemma_square_of_product(l, y);
    lemma_square_of_product(l, z);
    let n = l * l;
    let a = x * x;
    let b = y * y;
    let c = z * z;
    assert(n * (a + b + c) == n * a + n * b + n * c) by (nonlinear_arith);
}

proof fn lemma_square_of_product(l: int, x: int)
    ensures
        (l * x) * (l * x) == (l * l) * (x * x),
{
    assert((l * x) * (l * x) == (l * l) * (x * x)) by (nonlinear_arith);
}

/// A quotient of finite numbers, multiplied by the divisor, differs from the dividend by at most
/// `2^-24` of itself and half a unit of the divisor.
pub proof fn law_quotient_is_close(a: Scalar, b: Scalar)
    requires
        a.is_finite(),
        b.is_finite(),
        b.code() != 0,
        a.over(b).is_finite(),
    ensures
        0x100_0000 * size(a.over(b).units() * b.units() - a.units() * pow2(149)) <= size(b.units())
            * (size(a.over(b).units()) + 0x80_0000),
{
    reveal(Scalar::spec_over);
    let ma = magnitude(a.code() as int);
    let mb = magnitude(b.code() as int);
    lemma_magnitude_sign(a.code() as int);
    lemma_magnitude_sign(b.code() as int);
    let u = pow2(149) as int;
    vstd::arithmetic::power2::lemma_pow2_unfold(150);
    assert(ma * pow2(150) >= 0) by (nonlinear_arith)
        requires
            ma >= 0,
    ;
    let num = (ma * pow2(150)) as nat;
    let den = mb as nat;
    let c = nearest(num / den, num % den == 0) as int;
    lemma_nearest_exists(num / den, num % den == 0);
    lemma_nearest_error(num, den);
    lemma_last_place(c);
    lemma_magnitude_sign(c);
    let m = magnitude(c);
    let p = pow2(scale(c)) as int;
    assert(num == 2 * (ma * u)) by (nonlinear_arith)
        requires
            num == ma * pow2(150),
            pow2(150) == 2 * u,
    ;
    let q = a.over(b);
    let negative = a.is_negative() != b.is_negative();
    assert(q.is_negative() == negative && q.code() == c);
    assert(0x100_0000 * size(m * mb - ma * u) <= mb * (m + 0x80_0000)) by {
        let e = size(m * mb - ma * u);
        assert(2 * e <= mb * p);
        if scale(c) == 0 {
            vstd::arithmetic::power2::lemma2_to64();
            assert(0x80_0000 * (mb * p) <= mb * (m + 0x80_0000)) by (nonlinear_arith)
                requires
                    p == 1,
                    m >= 0,
                    mb >= 0,
            ;
        } else {
            assert(0x80_0000 * (mb * p) <= mb * (m + 0x80_0000)) by (nonlinear_arith)
                requires
                    0x80_0000 * p <= m,
                    mb >= 0,
            ;
        }
    }
    assert((-m) * mb == -(m * mb) && m * (-mb) == -(m * mb) && (-m) * (-mb) == m * mb)
        by (nonlinear_arith);
    assert((-ma) * u == -(ma * u)) by (nonlinear_arith);
}

/// A square root that is at most `k` times `2^24` units large is exact up to `k` units.
pub proof fn law_root_within(a: Scalar, k: nat)
    requires
        k >= 1,
        a.is_finite(),
        a.units() >= 0,
        within(a.root(), k),
    ensures
        a.root().units() >= 0,
        a.units() * pow2(149) <= (a.root().units() + k) * (a.root().units() + k),
        a.root().units() >= k ==> (a.root().units() - k) * (a.root().units() - k) <= a.units()
            * pow2(149),
{
    reveal(Scalar::spec_root);
    let m = magnitude(a.code() as int);
    let u = pow2(149) as int;
    lemma_magnitude_sign(a.code() as int);
    lemma_magnitude_sign(0);
    if a.code() == 0 {
        assert(a.units() * u == 0) by (nonlinear_arith)
            requires
                a.units() == 0,
        ;
        assert(k * k >= 0) by (nonlinear_arith);
    } else {
        vstd::arithmetic::power2::lemma_pow2_unfold(151);
        vstd::arithmetic::power2::lemma_pow2_unfold(150);
        assert(m * pow2(151) >= 0) by (nonlinear_arith)
            requires
                m >= 0,
        ;
        let sq = (m * pow2(151)) as nat;
        assert(sq == 4 * (m * u)) by (nonlinear_arith)
            requires
                sq == m * pow2(151),
                pow2(151) == 4 * u,
        ;
        let whole = crate::arithmetic::integral_root(sq);
        crate::arithmetic::lemma_integral_root_exists(sq);
        let exact = whole * whole == sq;
        let c = nearest(whole, exact) as int;
        lemma_nearest_exists(whole, exact);
        lemma_magnitude_step(c);
        lemma_magnitude_sign(c);
        lemma_last_place(c);
        vstd::arithmetic::power2::lemma2_to64();
        vstd::arithmetic::power2::lemma_pow2_pos(scale(c));
        let l = magnitude(c);
        let p = pow2(scale(c)) as int;
        assert(a.root().units() == l);
        assert(p <= 2 * k);
        let top = 2 * l + p;
        assert(sq <= top * top) by (nonlinear_arith)
            requires
                sq < (whole + 1) * (whole + 1),
                whole + 1 <= top || whole == top && sq == whole * whole,
                whole >= 0,
        ;
        assert(top * top <= 4 * ((l + k) * (l + k))) by (nonlinear_arith)
            requires
                top == 2 * l + p,
                0 <= p <= 2 * k,
                l >= 0,
        ;
        if l >= k {
            lemma_magnitude_step(c - 1);
            let q = pow2(scale(c - 1)) as int;
            assert(q <= p) by {
                if scale(c - 1) < scale(c) {
                    vstd::arithmetic::power2::lemma_pow2_strictly_increases(
                        scale(c - 1),
                        scale(c),
                    );
                }
            }
            let bottom = 2 * l - 2 * k;
            assert(bottom * bottom <= sq) by (nonlinear_arith)
                requires
                    whole * whole <= sq,
                    0 <= bottom <= whole,
            ;
            assert(bottom * bottom == 4 * ((l - k) * (l - k))) by (nonlinear_arith)
                requires
                    bottom == 2 * l - 2 * k,
            ;
        }
    }
}

/// The value of the largest finite number, in units.
pub open spec fn largest() -> int {
    magnitude(INF_CODE - 1)
}

/// A sum is finite where the exact sum is at most the largest number.
pub proof fn law_sum_is_finite(a: Scalar, b: Scalar)
    requires
        a.is_finite(),
        b.is_finite(),
        size(a.units() + b.units()) <= largest(),
    ensures
        a.plus(b).is_finite(),
{
    reveal(Scalar::spec_plus);
    let top = (INF_CODE - 1) as u32;
    let v = size(a.units() + b.units());
    assert((2 * v) as nat / 1 == 2 * v && (2 * v) as nat % 1 == 0);
    law_rounding_is_monotonic((2 * v) as nat, true, (2 * largest()) as nat, true);
    law_rounding_keeps_numbers(top);
    lemma_nearest_exists((2 * v) as nat, true);
}

/// No finite number is larger than the largest one.
pub proof fn law_largest(x: Scalar)
    requires
        x.is_finite(),
    ensures
        size(x.units()) <= largest(),
        largest() > 0,
{
    lemma_magnitude_sign(x.code() as int);
    lemma_magnitude_sign(INF_CODE - 1);
    if x.code() < INF_CODE - 1 {
        lemma_magnitude_increases(x.code() as int, INF_CODE - 1);
    }
}

/// A finite number times a factor between -1 and 1 is finite.
pub proof fn law_product_with_part_is_finite(a: Scalar, b: Scalar)
    requires
        a.is_finite(),
        Scalar::ratio(1, 1).negated().le(b),
        b.le(Scalar::ratio(1, 1)),
    ensures
        a.times(b).is_finite(),
{
    let s = if a.is_negative() {
        a.negated()
    } else {
        a
    };
    crate::order::law_product_with_part(s, b);
    crate::order::law_between_is_finite(s.negated(), s.times(b), s);
    crate::order::law_negation_of_product(s, b);
    crate::order::law_negation(a, a);
}

/// Two numbers of the same value other than zero are the same.
pub proof fn law_equal_values(a: Scalar, b: Scalar)
    requires
        !a.is_nan(),
        !b.is_nan(),
        a.units() == b.units(),
        a.code() != 0,
    ensures
        a == b,
{
    lemma_magnitude_sign(a.code() as int);
    lemma_magnitude_sign(b.code() as int);
    if a.code() < b.code() {
        lemma_magnitude_increases(a.code() as int, b.code() as int);
    } else if b.code() < a.code() {
        lemma_magnitude_increases(b.code() as int, a.code() as int);
    }
}

/// A number less itself is zero.
pub proof fn law_difference_of_equals(a: Scalar)
    requires
        a.is_finite(),
    ensures
        a.minus(a).code() == 0,
{
    reveal(Scalar::spec_plus);
    crate::order::law_negation(a, a);
}

/// A rounded fraction differs from the fraction by at most `2^-24` of itself and half a unit.
pub proof fn law_ratio_is_close(p: u32, q: u32)
    requires
        q > 0,
    ensures
        0x100_0000 * size(q * Scalar::ratio(p, q).units() - p * pow2(149)) <= q * (Scalar::ratio(
            p,
            q,
        ).units() + 0x80_0000),
        Scalar::ratio(p, q).units() >= 0,
{
    reveal(Scalar::spec_ratio);
    crate::order::law_ratio_is_finite(p, q);
    let num = p as nat * pow2(150);
    let den = q as nat;
    let c = nearest(num / den, num % den == 0) as int;
    lemma_nearest_exists(num / den, num % den == 0);
    lemma_nearest_error(num, den);
    lemma_last_place(c);
    lemma_magnitude_sign(c);
    vstd::arithmetic::power2::lemma_pow2_unfold(150);
    let m = magnitude(c);
    let s = pow2(scale(c)) as int;
    let u = pow2(149) as int;
    assert(num == 2 * (p * u)) by (nonlinear_arith)
        requires
            num == p * pow2(150),
            pow2(150) == 2 * u,
    ;
    assert(m * den == q * m) by (nonlinear_arith)
        requires
            den == q,
    ;
    if scale(c) == 0 {
        vstd::arithmetic::power2::lemma2_to64();
    }
    assert(0x80_0000 * (den * s) <= q * (m + 0x80_0000)) by (nonlinear_arith)
        requires
            den == q,
            s == 1 || 0x80_0000 * s <= m,
            m >= 0,
    ;
}

/// A finite number stays finite when a number between 0 and 1 is added.
pub proof fn law_small_sum_is_finite(a: Scalar, b: Scalar)
    requires
        a.is_finite(),
        Scalar::ratio(0, 1).le(b),
        b.le(Scalar::ratio(1, 1)),
    ensures
        a.plus(b).is_finite(),
{
    reveal(Scalar::spec_le);
    reveal(Scalar::spec_plus);
    crate::order::law_zero();
    crate::order::law_one();
    crate::order::law_ratio_is_finite(0, 1);
    crate::order::law_between_is_finite(Scalar::ratio(0, 1), b, Scalar::ratio(1, 1));
    let top = INF_CODE - 1;
    law_largest(a);
    lemma_magnitude_step(top);
    assert(scale(top) == 253);
    vstd::arithmetic::power2::lemma_pow2_strictly_increases(149, 252);
    vstd::arithmetic::power2::lemma_pow2_unfold(253);
    let v = size(a.units() + b.units());
    assert((2 * v) as nat / 1 == 2 * v && (2 * v) as nat % 1 == 0);
    lemma_nearest_exists((2 * v) as nat, true);
}

} // verus!
