//! Arithmetic on binary32 numbers: each operation is the exact one on real numbers, rounded once
//! to the nearest number, ties to even.

use crate::rounding::{lemma_magnitude_step, locates, magnitude, nearest, round_magnitude};
use crate::rounding::{scale, significand, HIDDEN, INF_CODE};
use crate::scalar::Scalar;
use vstd::arithmetic::power2::pow2;
use vstd::prelude::*;

verus! {

/// Whether `w` is the integral part of the square root of `n`.
pub open spec fn is_integral_root(w: nat, n: nat) -> bool {
    w * w <= n < (w + 1) * (w + 1)
}

/// The integral part of the square root of `n`.
pub open spec fn integral_root(n: nat) -> nat {
    choose|w: nat| is_integral_root(w, n)
}

/// The significand and the scale of a finite number.
pub(crate) fn parts(code: u32) -> (r: (u32, u32))
    requires
        code < INF_CODE,
    ensures
        r.0 == significand(code as int),
        r.1 == scale(code as int),
        r.0 < 2 * HIDDEN,
        r.1 > 0 ==> r.0 >= HIDDEN,
        r.1 <= 253,
        magnitude(code as int) == r.0 * pow2(r.1 as nat),
        r.0 == 0 <==> code == 0,
{
    if code < 2 * HIDDEN {
        (code, 0)
    } else {
        let e: u32 = code / HIDDEN;
        proof {
            assert((e - 1) * HIDDEN == e * HIDDEN - HIDDEN) by (nonlinear_arith);
        }
        (code - (e - 1) * HIDDEN, e - 1)
    }
}

/// The quotient of `p` and `q`, scaled by a power of two, lies where long division puts it.
proof fn lemma_division_locates(p: nat, q: nat, k: int, num: nat, den: nat)
    requires
        q > 0,
        den > 0,
        k >= 0 ==> num * q == den * p * pow2(k as nat),
        k < 0 ==> num * q * pow2((-k) as nat) == den * p,
    ensures
        locates(p / q, k, p % q != 0, num / den, num % den == 0),
{
    let n = (p / q) as int;
    let rest = (p % q) as int;
    let whole = (num / den) as int;
    let tail = (num % den) as int;
    vstd::arithmetic::div_mod::lemma_fundamental_div_mod(p as int, q as int);
    vstd::arithmetic::div_mod::lemma_fundamental_div_mod(num as int, den as int);
    assert(p == q * n + rest && 0 <= rest < q);
    assert(num == den * whole + tail && 0 <= tail < den);
    if k >= 0 {
        let pk = pow2(k as nat) as int;
        vstd::arithmetic::power2::lemma_pow2_pos(k as nat);
        let low = n * pk;
        // whole + tail / den == low + rest * pk / q
        assert(q * (den * whole + tail) == den * (q * low + rest * pk)) by (nonlinear_arith)
            requires
                num * q == den * p * pk,
                num == den * whole + tail,
                p == q * n + rest,
                low == n * pk,
        ;
        assert(low <= whole) by (nonlinear_arith)
            requires
                q * (den * whole + tail) == den * (q * low + rest * pk),
                tail < den,
                rest >= 0,
                pk > 0,
                q > 0,
                den > 0,
        ;
        assert(whole < low + pk) by (nonlinear_arith)
            requires
                q * (den * whole + tail) == den * (q * low + rest * pk),
                tail >= 0,
                rest < q,
                pk > 0,
                q > 0,
                den > 0,
        ;
        assert((n + 1) * pk == low + pk) by (nonlinear_arith)
            requires
                low == n * pk,
        ;
        if rest == 0 {
            assert(whole <= low) by (nonlinear_arith)
                requires
                    q * (den * whole + tail) == den * (q * low + rest * pk),
                    rest == 0,
                    tail >= 0,
                    q > 0,
                    den > 0,
            ;
            assert(tail == 0) by (nonlinear_arith)
                requires
                    q * (den * whole + tail) == den * (q * low + rest * pk),
                    rest == 0,
                    whole == low,
                    q > 0,
            ;
        } else if whole == low && tail == 0 {
            assert(rest * pk == 0) by (nonlinear_arith)
                requires
                    q * (den * whole + tail) == den * (q * low + rest * pk),
                    whole == low,
                    tail == 0,
                    den > 0,
            ;
            assert(rest * pk > 0) by (nonlinear_arith)
                requires
                    rest > 0,
                    pk > 0,
            ;
        }
    } else {
        let d = pow2((-k) as nat) as int;
        vstd::arithmetic::power2::lemma_pow2_pos((-k) as nat);
        let w = n / d;
        let t = n % d;
        vstd::arithmetic::div_mod::lemma_fundamental_div_mod(n, d);
        assert(n == d * w + t && 0 <= t < d);
        let u = q * t + rest;
        assert(0 <= u < q * d) by (nonlinear_arith)
            requires
                u == q * t + rest,
                0 <= t,
                t + 1 <= d,
                0 <= rest < q,
        ;
        // whole + tail / den == w + u / (q * d)
        assert(q * d * (den * whole + tail) == den * (q * d * w + u)) by (nonlinear_arith)
            requires
                num * q * d == den * p,
                num == den * whole + tail,
                p == q * n + rest,
                n == d * w + t,
                u == q * t + rest,
        ;
        let e = q * d;
        assert(e > 0);
        assert(w <= whole) by (nonlinear_arith)
            requires
                e * (den * whole + tail) == den * (e * w + u),
                tail < den,
                u >= 0,
                e > 0,
                den > 0,
        ;
        assert(whole <= w) by (nonlinear_arith)
            requires
                e * (den * whole + tail) == den * (e * w + u),
                tail >= 0,
                u < e,
                e > 0,
                den > 0,
        ;
        assert(e * tail == den * u) by (nonlinear_arith)
            requires
                e * (den * whole + tail) == den * (e * w + u),
                whole == w,
        ;
        if u == 0 {
            assert(tail == 0) by (nonlinear_arith)
                requires
                    e * tail == den * u,
                    u == 0,
                    e > 0,
                    tail >= 0,
            ;
            assert(t == 0) by (nonlinear_arith)
                requires
                    q * t + rest == 0,
                    rest >= 0,
                    t >= 0,
                    q > 0,
            ;
        } else {
            assert(tail > 0) by (nonlinear_arith)
                requires
                    e * tail == den * u,
                    u > 0,
                    den > 0,
                    tail >= 0,
            ;
        }
    }
}

/// Rounds the quotient of `p` and `q`, scaled by `2^k`.
fn round_quotient(
    negative: bool,
    p: u128,
    q: u128,
    k: i32,
    Ghost(num): Ghost<nat>,
    Ghost(den): Ghost<nat>,
) -> (r: Scalar)
    requires
        0 < p < 0x10_0000_0000_0000_0000_0000_0000_0000,
        0 < q,
        p >= 0x200_0000 * q || p % q == 0,
        -1000 <= k <= 1000,
        den > 0,
        k >= 0 ==> num * q == den * p * pow2(k as nat),
        k < 0 ==> num * q * pow2((-k) as nat) == den * p,
    ensures
        r == Scalar::rounded_quotient(negative, num, den),
{
    let n: u128 = p / q;
    proof {
        lemma_division_locates(p as nat, q as nat, k as int, num, den);
        vstd::arithmetic::div_mod::lemma_fundamental_div_mod(p as int, q as int);
        assert(n <= p) by (nonlinear_arith)
            requires
                p == q * n + p % q,
                p % q >= 0,
                q >= 1,
                n >= 0,
        ;
        if p >= 0x200_0000 * q {
            assert(n >= 0x200_0000) by (nonlinear_arith)
                requires
                    p == q * n + p % q,
                    p % q < q,
                    p >= 0x200_0000 * q,
            ;
        } else {
            assert(n > 0) by (nonlinear_arith)
                requires
                    p == q * n + p % q,
                    p % q == 0,
                    p > 0,
                    n >= 0,
            ;
        }
    }
    let code: u32 = round_magnitude(n, k, p % q != 0, Ghost(num / den), Ghost(num % den == 0));
    Scalar::signed(negative, code)
}

/// Zero is the magnitude nearest to zero.
proof fn lemma_nearest_zero()
    ensures
        nearest(0, true) == 0,
{
    crate::scalar::lemma_magnitude_sign(0);
    crate::scalar::lemma_magnitude_sign(1);
    crate::rounding::lemma_nearest_is(0, 0, true);
}

/// Zero, divided, is rounded to zero.
proof fn lemma_zero_quotient(den: nat)
    requires
        den > 0,
    ensures
        nearest(0nat / den, 0nat % den == 0) == 0,
{
    lemma_nearest_zero();
    vstd::arithmetic::div_mod::lemma_div_of0(den as int);
    vstd::arithmetic::div_mod::lemma_small_mod(0, den);
}

/// A number is not changed by adding or subtracting less than a quarter of its last place.
proof fn lemma_absorbs(code: u32, v: int)
    requires
        code < INF_CODE,
        scale(code as int) >= 2,
        4 * -v < pow2(scale(code as int)),
        4 * v < pow2(scale(code as int)),
    ensures
        magnitude(code as int) + v > 0,
        nearest((2 * (magnitude(code as int) + v)) as nat, true) == code,
{
    let c = code as int;
    let s = scale(c);
    lemma_magnitude_step(c);
    lemma_magnitude_step(c - 1);
    assert(scale(c - 1) == s || scale(c - 1) == s - 1);
    vstd::arithmetic::power2::lemma_pow2_unfold(s);
    crate::scalar::lemma_magnitude_sign(c - 1);
    crate::rounding::lemma_nearest_is(code, (2 * (magnitude(c) + v)) as nat, true);
}

impl Scalar {
    /// The real number `num / den`, in units of `2^-150`, rounded and given a sign.
    pub open spec fn rounded_quotient(negative: bool, num: nat, den: nat) -> Scalar {
        Scalar::signed(negative, nearest(num / den, num % den == 0))
    }

    /// The rational number `p / q`, rounded.
    #[verifier::opaque]
    pub open spec fn spec_ratio(p: u32, q: u32) -> Scalar {
        Scalar::rounded_quotient(false, p as nat * pow2(150), q as nat)
    }

    /// The sum of two numbers, rounded.
    #[verifier::opaque]
    pub open spec fn spec_plus(self, other: Scalar) -> Scalar {
        if self.is_nan() || other.is_nan() {
            Scalar::nan()
        } else if !self.is_finite() {
            if !other.is_finite() && self.is_negative() != other.is_negative() {
                Scalar::nan()
            } else {
                self
            }
        } else if !other.is_finite() {
            other
        } else {
            let sum = self.units() + other.units();
            if sum == 0 {
                Scalar::signed(self.is_negative() && other.is_negative(), 0)
            } else {
                Scalar::rounded_quotient(
                    sum < 0,
                    2 * (if sum < 0 {
                        -sum
                    } else {
                        sum
                    }) as nat,
                    1,
                )
            }
        }
    }

    /// The product of two numbers, rounded.
    #[verifier::opaque]
    pub open spec fn spec_times(self, other: Scalar) -> Scalar {
        let negative = self.is_negative() != other.is_negative();
        if self.is_nan() || other.is_nan() {
            Scalar::nan()
        } else if !self.is_finite() || !other.is_finite() {
            if self.code() == 0 || other.code() == 0 {
                Scalar::nan()
            } else {
                Scalar::signed(negative, INF_CODE)
            }
        } else {
            Scalar::rounded_quotient(
                negative,
                (magnitude(self.code() as int) * magnitude(other.code() as int)) as nat,
                pow2(148),
            )
        }
    }

    /// The quotient of two numbers, rounded.
    #[verifier::opaque]
    pub open spec fn spec_over(self, other: Scalar) -> Scalar {
        let negative = self.is_negative() != other.is_negative();
        if self.is_nan() || other.is_nan() {
            Scalar::nan()
        } else if !self.is_finite() {
            if !other.is_finite() {
                Scalar::nan()
            } else {
                Scalar::signed(negative, INF_CODE)
            }
        } else if !other.is_finite() {
            Scalar::signed(negative, 0)
        } else if other.code() == 0 {
            if self.code() == 0 {
                Scalar::nan()
            } else {
                Scalar::signed(negative, INF_CODE)
            }
        } else {
            Scalar::rounded_quotient(
                negative,
                (magnitude(self.code() as int) * pow2(150)) as nat,
                magnitude(other.code() as int) as nat,
            )
        }
    }

    /// The square root of a number, rounded.
    #[verifier::opaque]
    pub open spec fn spec_root(self) -> Scalar {
        if self.is_nan() {
            Scalar::nan()
        } else if self.code() == 0 {
            self
        } else if self.is_negative() {
            Scalar::nan()
        } else if !self.is_finite() {
            self
        } else {
            let square = (magnitude(self.code() as int) * pow2(151)) as nat;
            let whole = integral_root(square);
            Scalar::signed(false, nearest(whole, whole * whole == square))
        }
    }

    /// One with the sign of a number; what is no number stays so.
    pub open spec fn spec_signum(self) -> Scalar {
        if self.is_nan() {
            Scalar::nan()
        } else if self.is_negative() {
            Scalar::spec_ratio(1, 1).negated()
        } else {
            Scalar::spec_ratio(1, 1)
        }
    }

    /// The difference of two numbers, rounded.
    pub open spec fn spec_minus(self, other: Scalar) -> Scalar {
        self.spec_plus(other.negated())
    }

    /// The rational number `p / q`, rounded.
    #[verifier::when_used_as_spec(spec_ratio)]
    pub fn ratio(p: u32, q: u32) -> (r: Scalar)
        requires
            q > 0,
        ensures
            r == Scalar::ratio(p, q),
    {
        proof {
            reveal(Scalar::spec_ratio);
            lemma_nearest_zero();
            assert(0 * pow2(150) == 0) by (nonlinear_arith);
        }
        if p == 0 {
            return Scalar::signed(false, 0);
        }
        let size: u128 = p as u128;
        let ghost num = size as nat * pow2(150);
        proof {
            vstd::arithmetic::power2::lemma2_to64();
            vstd::arithmetic::power2::lemma2_to64_rest();
            vstd::arithmetic::power2::lemma_pow2_adds(60, 90);
            assert(num * q == q * (size * 0x1000_0000_0000_0000) * pow2(90)) by (nonlinear_arith)
                requires
                    num == size * (0x1000_0000_0000_0000 * pow2(90)),
            ;
        }
        let scaled: u128 = size * 0x1000_0000_0000_0000;
        round_quotient(false, scaled, q as u128, 90, Ghost(num), Ghost(q as nat))
    }

    /// The product of two numbers, rounded.
    #[verifier::when_used_as_spec(spec_times)]
    pub fn times(self, other: Scalar) -> (r: Scalar)
        ensures
            r == self.times(other),
    {
        proof {
            reveal(Scalar::spec_times);
        }
        let negative = self.is_negative() != other.is_negative();
        let a: u32 = self.magnitude_code();
        let b: u32 = other.magnitude_code();
        if self.is_nan() || other.is_nan() {
            return Scalar::nan();
        }
        if a == INF_CODE || b == INF_CODE {
            return if a == 0 || b == 0 {
                Scalar::nan()
            } else {
                Scalar::signed(negative, INF_CODE)
            };
        }
        let (m, s) = parts(a);
        let (n, t) = parts(b);
        let ghost num = (magnitude(a as int) * magnitude(b as int)) as nat;
        proof {
            vstd::arithmetic::power2::lemma_pow2_pos(148);
            lemma_nearest_zero();
        }
        if a == 0 || b == 0 {
            proof {
                assert(num == 0) by (nonlinear_arith)
                    requires
                        num == (m * pow2(s as nat)) * (n * pow2(t as nat)),
                        m == 0 || n == 0,
                ;
                lemma_zero_quotient(pow2(148));
            }
            return Scalar::signed(negative, 0);
        }
        let k: i32 = s as i32 + t as i32 - 148;
        proof {
            vstd::arithmetic::power2::lemma_pow2_adds(s as nat, t as nat);
            let st = pow2((s + t) as nat);
            assert(num == m * n * st) by (nonlinear_arith)
                requires
                    num == (m * pow2(s as nat)) * (n * pow2(t as nat)),
                    st == pow2(s as nat) * pow2(t as nat),
            ;
            assert(0 < m * n < 0x1_0000_0000_0000) by (nonlinear_arith)
                requires
                    0 < m < 0x100_0000,
                    0 < n < 0x100_0000,
            ;
            if k >= 0 {
                vstd::arithmetic::power2::lemma_pow2_adds(148, k as nat);
                assert(num * 1 == pow2(148) * (m * n) * pow2(k as nat)) by (nonlinear_arith)
                    requires
                        num == m * n * st,
                        st == pow2(148) * pow2(k as nat),
                ;
            } else {
                vstd::arithmetic::power2::lemma_pow2_adds((s + t) as nat, (-k) as nat);
                assert(num * 1 * pow2((-k) as nat) == pow2(148) * (m * n)) by (nonlinear_arith)
                    requires
                        num == m * n * st,
                        pow2(148) == st * pow2((-k) as nat),
                ;
            }
        }
        round_quotient(negative, m as u128 * n as u128, 1, k, Ghost(num), Ghost(pow2(148)))
    }

    /// The quotient of two numbers, rounded.
    #[verifier::when_used_as_spec(spec_over)]
    pub fn over(self, other: Scalar) -> (r: Scalar)
        ensures
            r == self.over(other),
    {
        proof {
            reveal(Scalar::spec_over);
        }
        let negative = self.is_negative() != other.is_negative();
        let a: u32 = self.magnitude_code();
        let b: u32 = other.magnitude_code();
        if self.is_nan() || other.is_nan() {
            return Scalar::nan();
        }
        if a == INF_CODE {
            return if b == INF_CODE {
                Scalar::nan()
            } else {
                Scalar::signed(negative, INF_CODE)
            };
        }
        if b == INF_CODE {
            return Scalar::signed(negative, 0);
        }
        if b == 0 {
            return if a == 0 {
                Scalar::nan()
            } else {
                Scalar::signed(negative, INF_CODE)
            };
        }
        let (m, s) = parts(a);
        let (n, t) = parts(b);
        let ghost num = (magnitude(a as int) * pow2(150)) as nat;
        let ghost den = magnitude(b as int) as nat;
        proof {
            crate::scalar::lemma_magnitude_sign(b as int);
            lemma_nearest_zero();
        }
        if a == 0 {
            proof {
                assert(num == 0) by (nonlinear_arith)
                    requires
                        num == (m * pow2(s as nat)) * pow2(150),
                        m == 0,
                ;
                lemma_zero_quotient(den);
            }
            return Scalar::signed(negative, 0);
        }
        let k: i32 = s as i32 - t as i32 + 90;
        let p: u128 = m as u128 * 0x1000_0000_0000_0000;
        proof {
            vstd::arithmetic::power2::lemma2_to64();
            vstd::arithmetic::power2::lemma2_to64_rest();
            vstd::arithmetic::power2::lemma_pow2_adds(60, 90);
            vstd::arithmetic::power2::lemma_pow2_adds(s as nat, 90);
            let ps = pow2(s as nat);
            let pt = pow2(t as nat);
            assert(num == p * (ps * pow2(90))) by (nonlinear_arith)
                requires
                    num == (m * ps) * (0x1000_0000_0000_0000 * pow2(90)),
                    p == m * 0x1000_0000_0000_0000,
            ;
            assert(den == n * pt);
            if k >= 0 {
                vstd::arithmetic::power2::lemma_pow2_adds(t as nat, k as nat);
                assert(num * n == den * p * pow2(k as nat)) by (nonlinear_arith)
                    requires
                        num == p * (pt * pow2(k as nat)),
                        den == n * pt,
                ;
            } else {
                vstd::arithmetic::power2::lemma_pow2_adds((s + 90) as nat, (-k) as nat);
                assert(num * n * pow2((-k) as nat) == den * p) by (nonlinear_arith)
                    requires
                        num == p * pow2((s + 90) as nat),
                        den == n * pt,
                        pt == pow2((s + 90) as nat) * pow2((-k) as nat),
                ;
            }
        }
        round_quotient(negative, p, n as u128, k, Ghost(num), Ghost(den))
    }

    /// The sum of two numbers, rounded.
    #[verifier::when_used_as_spec(spec_plus)]
    pub fn plus(self, other: Scalar) -> (r: Scalar)
        ensures
            r == self.plus(other),
    {
        proof {
            reveal(Scalar::spec_plus);
        }
        if self.is_nan() || other.is_nan() {
            return Scalar::nan();
        }
        let a: u32 = self.magnitude_code();
        let b: u32 = other.magnitude_code();
        if a == INF_CODE {
            return if b == INF_CODE && self.is_negative() != other.is_negative() {
                Scalar::nan()
            } else {
                self
            };
        }
        if b == INF_CODE {
            return other;
        }
        let (m, s) = parts(a);
        let (n, t) = parts(b);
        if s >= t {
            sum_of_parts(self, other, m, s, n, t)
        } else {
            sum_of_parts(other, self, n, t, m, s)
        }
    }

    /// The square root of a number, rounded.
    #[verifier::when_used_as_spec(spec_root)]
    pub fn root(self) -> (r: Scalar)
        ensures
            r == self.root(),
    {
        proof {
            reveal(Scalar::spec_root);
        }
        if self.is_nan() {
            return Scalar::nan();
        }
        let a: u32 = self.magnitude_code();
        if a == 0 {
            return self;
        }
        if self.is_negative() {
            return Scalar::nan();
        }
        if a == INF_CODE {
            return self;
        }
        let (m, s) = parts(a);
        let j: u32 = if s % 2 == 1 {
            52
        } else {
            51
        };
        let k: u32 = (s + 151 - j) / 2;
        let f: u128 = crate::rounding::power_of_two(j);
        proof {
            vstd::arithmetic::power2::lemma2_to64();
            vstd::arithmetic::power2::lemma2_to64_rest();
            assert(f == 0x10_0000_0000_0000 || f == 0x8_0000_0000_0000);
            assert(0x8_0000_0000_0000 <= m * f < 0x1000_0000_0000_0000_0000) by (nonlinear_arith)
                requires
                    1 <= m < 0x100_0000,
                    0x8_0000_0000_0000 <= f <= 0x10_0000_0000_0000,
            ;
        }
        let b: u128 = m as u128 * f;
        let w: u128 = root_of(b);
        let ghost square = (magnitude(a as int) * pow2(151)) as nat;
        let ghost whole = integral_root(square);
        proof {
            vstd::arithmetic::power2::lemma_pow2_adds(k as nat, k as nat);
            vstd::arithmetic::power2::lemma_pow2_adds(j as nat, (2 * k) as nat);
            vstd::arithmetic::power2::lemma_pow2_adds(s as nat, 151);
            assert(square == b * pow2((2 * k) as nat)) by (nonlinear_arith)
                requires
                    square == (m * pow2(s as nat)) * pow2(151),
                    pow2(s as nat) * pow2(151) == f * pow2((2 * k) as nat),
                    b == m * f,
            ;
            assert(0x200_0000 <= w) by (nonlinear_arith)
                requires
                    0x8_0000_0000_0000 <= b,
                    b < (w + 1) * (w + 1),
                    w >= 0,
            ;
            assert(w * w < 0x40_0000_0000 * 0x40_0000_0000) by (nonlinear_arith)
                requires
                    0 <= w < 0x40_0000_0000,
            ;
            lemma_root_locates(w as nat, b as nat, k as nat, square);
        }
        let code: u32 = round_magnitude(
            w,
            k as i32,
            w * w != b,
            Ghost(whole),
            Ghost(whole * whole == square),
        );
        Scalar::signed(false, code)
    }

    /// One with the sign of a number; what is no number stays so.
    #[verifier::when_used_as_spec(spec_signum)]
    pub fn signum(self) -> (r: Scalar)
        ensures
            r == self.signum(),
    {
        if self.is_nan() {
            Scalar::nan()
        } else if self.is_negative() {
            Scalar::ratio(1, 1).negated()
        } else {
            Scalar::ratio(1, 1)
        }
    }

    /// The difference of two numbers, rounded.
    #[verifier::when_used_as_spec(spec_minus)]
    pub fn minus(self, other: Scalar) -> (r: Scalar)
        ensures
            r == self.minus(other),
    {
        self.plus(other.negated())
    }
}

/// The sum of two finite numbers, of which the first has the larger scale.
fn sum_of_parts(x: Scalar, y: Scalar, m: u32, s: u32, n: u32, t: u32) -> (r: Scalar)
    requires
        x.is_finite(),
        y.is_finite(),
        magnitude(x.code() as int) == m * pow2(s as nat),
        magnitude(y.code() as int) == n * pow2(t as nat),
        s == scale(x.code() as int),
        m < 2 * HIDDEN,
        n < 2 * HIDDEN,
        t <= s <= 253,
    ensures
        x.units() + y.units() == 0 ==> r == Scalar::signed(x.is_negative() && y.is_negative(), 0),
        x.units() + y.units() > 0 ==> r == Scalar::rounded_quotient(
            false,
            2 * (x.units() + y.units()) as nat,
            1,
        ),
        x.units() + y.units() < 0 ==> r == Scalar::rounded_quotient(
            true,
            2 * (-(x.units() + y.units())) as nat,
            1,
        ),
{
    let ghost sum = x.units() + y.units();
    let ghost ps = pow2(s as nat) as int;
    let ghost pt = pow2(t as nat) as int;
    proof {
        vstd::arithmetic::power2::lemma_pow2_pos(t as nat);
    }
    if s - t >= 30 {
        proof {
            vstd::arithmetic::power2::lemma2_to64();
            vstd::arithmetic::power2::lemma_pow2_adds(t as nat, (s - t) as nat);
            if s - t > 30 {
                vstd::arithmetic::power2::lemma_pow2_strictly_increases(30, (s - t) as nat);
            }
            let pd = pow2((s - t) as nat) as int;
            assert(0 <= 4 * (n * pt) < ps) by (nonlinear_arith)
                requires
                    0 <= n < 0x100_0000,
                    ps == pt * pd,
                    pd >= 0x4000_0000,
                    pt > 0,
            ;
            crate::rounding::lemma_magnitude_increases(0, x.code() as int);
            crate::scalar::lemma_magnitude_sign(x.code() as int);
            lemma_absorbs(x.code(), n * pt);
            lemma_absorbs(x.code(), -(n * pt));
            assert(Scalar::signed(x.is_negative(), x.code()) == x);
        }
        return x;
    }
    let f: i128 = crate::rounding::power_of_two(s - t) as i128;
    proof {
        vstd::arithmetic::power2::lemma2_to64();
        vstd::arithmetic::power2::lemma_pow2_strictly_increases((s - t) as nat, 30);
        vstd::arithmetic::power2::lemma_pow2_adds(t as nat, (s - t) as nat);
        assert(0 <= m * f < 0x40_0000_0000_0000) by (nonlinear_arith)
            requires
                0 <= m < 0x100_0000,
                0 <= f < 0x4000_0000,
        ;
    }
    let p: i128 = m as i128 * f;
    let first: i128 = if x.is_negative() {
        -p
    } else {
        p
    };
    let second: i128 = if y.is_negative() {
        -(n as i128)
    } else {
        n as i128
    };
    let total: i128 = first + second;
    proof {
        assert(m * ps == p * pt) by (nonlinear_arith)
            requires
                ps == pt * f,
                p == m * f,
        ;
        assert(sum == total * pt) by (nonlinear_arith)
            requires
                m * ps == p * pt,
                first == p && x.units() == m * ps || first == -p && x.units() == -(m * ps),
                second == n && y.units() == n * pt || second == -n && y.units() == -(n * pt),
                total == first + second,
                sum == x.units() + y.units(),
        ;
        assert(sum > 0 <==> total > 0) by (nonlinear_arith)
            requires
                sum == total * pt,
                pt > 0,
        ;
        assert(sum < 0 <==> total < 0) by (nonlinear_arith)
            requires
                sum == total * pt,
                pt > 0,
        ;
    }
    if total == 0 {
        return Scalar::signed(x.is_negative() && y.is_negative(), 0);
    }
    let size: u128 = if total < 0 {
        (-total) as u128
    } else {
        total as u128
    };
    let ghost num = 2 * (if sum < 0 {
        -sum
    } else {
        sum
    }) as nat;
    proof {
        vstd::arithmetic::power2::lemma_pow2_unfold((t + 1) as nat);
        assert(num == size * (2 * pt)) by (nonlinear_arith)
            requires
                sum == total * pt,
                num == 2 * sum && size == total || num == 2 * -sum && size == -total,
        ;
    }
    round_quotient(total < 0, size, 1, t as i32 + 1, Ghost(num), Ghost(1))
}

/// Every natural number has an integral square root.
pub proof fn lemma_integral_root_exists(n: nat)
    ensures
        is_integral_root(integral_root(n), n),
{
    let w = lemma_search_root(n);
    assert(is_integral_root(w, n));
}

proof fn lemma_search_root(n: nat) -> (w: nat)
    ensures
        is_integral_root(w, n),
    decreases n,
{
    if n == 0 {
        assert(is_integral_root(0, 0)) by (nonlinear_arith);
        0
    } else {
        let w = lemma_search_root((n - 1) as nat);
        let v = w + 1;
        assert(v * v < (v + 1) * (v + 1)) by (nonlinear_arith);
        if n < (w + 1) * (w + 1) {
            w
        } else {
            v
        }
    }
}

/// The root of a number that is scaled by an even power of two lies where the root of the number
/// puts it.
proof fn lemma_root_locates(w: nat, b: nat, k: nat, square: nat)
    requires
        is_integral_root(w, b),
        square == b * (pow2(k) * pow2(k)),
    ensures
        ({
            let whole = integral_root(square);
            locates(w, k as int, w * w != b, whole, whole * whole == square)
        }),
{
    let whole = integral_root(square);
    let p = pow2(k);
    lemma_integral_root_exists(square);
    vstd::arithmetic::power2::lemma_pow2_pos(k);
    let low = w * p;
    let high = (w + 1) * p;
    assert(low * low <= square) by (nonlinear_arith)
        requires
            low == w * p,
            w * w <= b,
            square == b * (p * p),
    ;
    assert(square < high * high) by (nonlinear_arith)
        requires
            high == (w + 1) * p,
            b < (w + 1) * (w + 1),
            square == b * (p * p),
            p > 0,
    ;
    assert(low <= whole) by (nonlinear_arith)
        requires
            low * low <= square,
            square < (whole + 1) * (whole + 1),
            low >= 0,
            whole >= 0,
    ;
    assert(whole < high) by (nonlinear_arith)
        requires
            whole * whole <= square,
            square < high * high,
            high >= 0,
            whole >= 0,
    ;
    assert(low * low == w * w * (p * p)) by (nonlinear_arith)
        requires
            low == w * p,
    ;
    if w * w == b {
        assert(whole <= low) by (nonlinear_arith)
            requires
                whole * whole <= square,
                low * low == square,
                low >= 0,
                whole >= 0,
        ;
    } else if whole == low && whole * whole == square {
        assert(w * w == b) by (nonlinear_arith)
            requires
                w * w * (p * p) == b * (p * p),
                p > 0,
        ;
    }
}

/// The integral part of the square root of a number of at most 76 bits.
fn root_of(b: u128) -> (w: u128)
    requires
        b < 0x1000_0000_0000_0000_0000,
    ensures
        is_integral_root(w as nat, b as nat),
        w < 0x40_0000_0000,
{
    let mut w: u128 = 0;
    let mut gap: u128 = 0x40_0000_0000;
    let mut i: u32 = 38;
    proof {
        vstd::arithmetic::power2::lemma2_to64();
        vstd::arithmetic::power2::lemma2_to64_rest();
    }
    while i > 0
        invariant
            i <= 38,
            gap == pow2(i as nat),
            w * w <= b < (w + gap) * (w + gap),
            w + gap <= 0x40_0000_0000,
        decreases i,
    {
        proof {
            vstd::arithmetic::power2::lemma_pow2_unfold(i as nat);
            vstd::arithmetic::power2::lemma_pow2_pos((i - 1) as nat);
        }
        gap = gap / 2;
        i = i - 1;
        let next: u128 = w + gap;
        proof {
            assert(next * next <= 0x40_0000_0000 * 0x40_0000_0000) by (nonlinear_arith)
                requires
                    0 <= next <= 0x40_0000_0000,
            ;
        }
        if next * next <= b {
            w = next;
        }
    }
    proof {
        vstd::arithmetic::power2::lemma2_to64();
    }
    w
}

} // verus!
