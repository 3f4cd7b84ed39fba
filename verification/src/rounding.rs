//! Rounding to the nearest binary32 magnitude.
//!
//! The magnitudes of the binary32 format, taken in increasing order, are numbered by their
//! *codes*: the bit patterns without the sign bit.  Code 0 is zero and [`INF_CODE`] is infinity,
//! which takes part in rounding as the magnitude that would follow the largest finite one.

use vstd::arithmetic::power2::pow2;
use vstd::prelude::*;

verus! {

/// The code of infinity: exponent field all ones, fraction zero.
pub const INF_CODE: u32 = 0x7f80_0000;

/// The weight of the exponent field in a code, and the hidden bit of a significand.
pub const HIDDEN: u32 = 0x80_0000;

/// The power of two by which the significand of a code is scaled, in units of `2^-149`.
pub open spec fn scale(code: int) -> nat {
    if code < 2 * HIDDEN {
        0
    } else {
        (code / (HIDDEN as int) - 1) as nat
    }
}

/// The significand of a code, hidden bit included.
pub open spec fn significand(code: int) -> int {
    code - scale(code) * HIDDEN
}

/// The magnitude that a code stands for, in units of `2^-149`.
pub open spec fn magnitude(code: int) -> int {
    significand(code) * pow2(scale(code))
}

/// The point half-way between a magnitude and the next one, in units of `2^-150`.
pub open spec fn midpoint(code: int) -> int {
    magnitude(code) + magnitude(code + 1)
}

/// Whether a real number is not too small to be rounded to `code`.
///
/// The number is given in units of `2^-150`, by its integral part `whole` and by whether it is
/// integral (`exact`).
pub open spec fn reaches(code: int, whole: nat, exact: bool) -> bool {
    code == 0 || whole > midpoint(code - 1) || (whole == midpoint(code - 1) && (!exact || code % 2
        == 0))
}

/// Whether a real number, given as for [`reaches`], is not too large to be rounded to `code`.
pub open spec fn covers(code: int, whole: nat, exact: bool) -> bool {
    code == INF_CODE || whole < midpoint(code) || (whole == midpoint(code) && exact && code % 2
        == 0)
}

/// Whether `code` is the magnitude nearest to a real number, the even one of two that are
/// equally near.
pub open spec fn is_nearest(code: int, whole: nat, exact: bool) -> bool {
    &&& 0 <= code <= INF_CODE
    &&& reaches(code, whole, exact)
    &&& covers(code, whole, exact)
}

/// The code of the magnitude nearest to a real number, ties to even.
pub open spec fn nearest(whole: nat, exact: bool) -> u32 {
    choose|code: u32| is_nearest(code as int, whole, exact)
}

/// The magnitude of a code that is written as a significand and a scale.
proof fn lemma_magnitude_of_parts(s: nat, m: int)
    requires
        0 <= m <= 2 * HIDDEN,
        s == 0 || m >= HIDDEN,
    ensures
        magnitude(s * HIDDEN + m) == m * pow2(s),
{
    let code = s * HIDDEN + m;
    if m == 2 * HIDDEN {
        assert(code == (s + 1) * HIDDEN + HIDDEN);
        assert(code / (HIDDEN as int) == s + 2) by (nonlinear_arith)
            requires
                code == (s + 1) * HIDDEN + HIDDEN,
                HIDDEN == 0x80_0000u32,
        ;
        assert(scale(code) == s + 1);
        assert(significand(code) == HIDDEN);
        vstd::arithmetic::power2::lemma_pow2_unfold(s + 1);
        assert(HIDDEN * (2 * pow2(s)) == (2 * HIDDEN) * pow2(s)) by (nonlinear_arith);
    } else if s > 0 {
        assert(code / (HIDDEN as int) == s + 1) by (nonlinear_arith)
            requires
                code == s * HIDDEN + m,
                HIDDEN <= m < 2 * HIDDEN,
                HIDDEN == 0x80_0000u32,
        ;
        assert(code >= 2 * HIDDEN) by (nonlinear_arith)
            requires
                code == s * HIDDEN + m,
                HIDDEN <= m,
                s >= 1,
                HIDDEN == 0x80_0000u32,
        ;
        assert(scale(code) == s);
        assert(significand(code) == m);
    }
}

/// A code is its own significand and scale put together.
proof fn lemma_parts_of_code(code: int)
    requires
        0 <= code,
    ensures
        code == scale(code) * HIDDEN + significand(code),
        0 <= significand(code) < 2 * HIDDEN,
        scale(code) == 0 || significand(code) >= HIDDEN,
{
    if code >= 2 * HIDDEN {
        let q = code / (HIDDEN as int);
        assert(q * HIDDEN <= code < q * HIDDEN + HIDDEN && q >= 2) by (nonlinear_arith)
            requires
                q == code / (HIDDEN as int),
                code >= 2 * HIDDEN,
                HIDDEN == 0x80_0000u32,
        ;
        assert((q - 1) * HIDDEN == q * HIDDEN - HIDDEN) by (nonlinear_arith);
    }
}

/// Two neighbouring magnitudes differ by the power of two that scales the lower one.
pub proof fn lemma_magnitude_step(code: int)
    requires
        0 <= code,
    ensures
        magnitude(code + 1) == magnitude(code) + pow2(scale(code)),
        magnitude(code) < magnitude(code + 1),
{
    lemma_parts_of_code(code);
    lemma_magnitude_of_parts(scale(code), significand(code) + 1);
    assert((significand(code) + 1) * pow2(scale(code)) == significand(code) * pow2(scale(code))
        + pow2(scale(code))) by (nonlinear_arith);
    vstd::arithmetic::power2::lemma_pow2_pos(scale(code));
}

/// Codes are ordered as the magnitudes that they stand for.
pub proof fn lemma_magnitude_increases(a: int, b: int)
    requires
        0 <= a < b,
    ensures
        magnitude(a) < magnitude(b),
    decreases b - a,
{
    lemma_magnitude_step(b - 1);
    if a < b - 1 {
        lemma_magnitude_increases(a, b - 1);
    }
}

/// No real number has two nearest magnitudes.
pub proof fn lemma_nearest_is_unique(a: int, b: int, whole: nat, exact: bool)
    requires
        is_nearest(a, whole, exact),
        is_nearest(b, whole, exact),
    ensures
        a == b,
{
    lemma_nearest_is_least(a, b, whole, exact);
    lemma_nearest_is_least(b, a, whole, exact);
}

proof fn lemma_nearest_is_least(a: int, b: int, whole: nat, exact: bool)
    requires
        is_nearest(a, whole, exact),
        is_nearest(b, whole, exact),
    ensures
        a >= b,
{
    if a + 1 < b {
        lemma_magnitude_increases(a, b - 1);
        lemma_magnitude_increases(a + 1, b);
    }
}

/// Every real number has a nearest magnitude.
pub proof fn lemma_nearest_exists(whole: nat, exact: bool)
    ensures
        is_nearest(nearest(whole, exact) as int, whole, exact),
{
    let code = lemma_search_nearest(0, whole, exact);
    assert(is_nearest(code as u32 as int, whole, exact));
}

proof fn lemma_search_nearest(from: int, whole: nat, exact: bool) -> (code: int)
    requires
        0 <= from <= INF_CODE,
        reaches(from, whole, exact),
    ensures
        is_nearest(code, whole, exact),
    decreases INF_CODE - from,
{
    if covers(from, whole, exact) {
        from
    } else {
        lemma_search_nearest(from + 1, whole, exact)
    }
}

/// The nearest magnitude is the one that is known to be nearest.
pub proof fn lemma_nearest_is(code: u32, whole: nat, exact: bool)
    requires
        is_nearest(code as int, whole, exact),
    ensures
        nearest(whole, exact) == code,
{
    lemma_nearest_exists(whole, exact);
    lemma_nearest_is_unique(nearest(whole, exact) as int, code as int, whole, exact);
}

/// Where a real number lies between a magnitude and the next one.
#[derive(Clone, Copy, PartialEq, Eq, Structural)]
enum Position {
    /// Below the point half-way.
    Below,
    /// On it.
    Halfway,
    /// Above it.
    Above,
}

/// Whether a real number, given as for [`reaches`], lies at `position` with respect to `point`.
spec fn lies(position: Position, point: int, whole: nat, exact: bool) -> bool {
    match position {
        Position::Below => whole < point,
        Position::Halfway => whole == point && exact,
        Position::Above => whole > point || (whole == point && !exact),
    }
}

/// The significand that a number between `m` and `m + 1` is rounded to.
spec fn rounded(m: int, position: Position) -> int {
    match position {
        Position::Below => m,
        Position::Halfway => m + m % 2,
        Position::Above => m + 1,
    }
}

/// Rounding the significand of a number rounds the number.
proof fn lemma_rounded_is_nearest(s: nat, m: int, position: Position, whole: nat, exact: bool)
    requires
        0 <= m < 2 * HIDDEN,
        s == 0 || m >= HIDDEN,
        2 * (m * pow2(s)) <= whole < 2 * ((m + 1) * pow2(s)),
        lies(position, (2 * m + 1) * pow2(s), whole, exact),
    ensures
        ({
            let code = s * HIDDEN + rounded(m, position);
            is_nearest(if code < INF_CODE { code } else { INF_CODE as int }, whole, exact)
        }),
{
    let base = s * HIDDEN + m;
    let code = s * HIDDEN + rounded(m, position);
    assert(base >= 0) by (nonlinear_arith)
        requires
            base == s * HIDDEN + m,
            m >= 0,
    ;
    assert(base % 2 == m % 2) by (nonlinear_arith)
        requires
            base == s * HIDDEN + m,
            HIDDEN == 0x80_0000u32,
    ;
    lemma_magnitude_of_parts(s, m);
    lemma_magnitude_of_parts(s, m + 1);
    assert(s * HIDDEN + (m + 1) == base + 1);
    assert((2 * m + 1) * pow2(s) == m * pow2(s) + (m + 1) * pow2(s)) by (nonlinear_arith);
    lemma_magnitude_step(base + 1);
    if base > 0 {
        lemma_magnitude_step(base - 1);
    }
    if code >= INF_CODE {
        let inf = INF_CODE as int;
        lemma_magnitude_step(inf - 1);
        if base >= inf {
            if base > inf {
                lemma_magnitude_increases(inf, base);
            }
        } else {
            assert(code == inf && base == inf - 1);
        }
    }
}

/// Whether the real number that `whole` and `exact` give lies in `[n * 2^k, (n + 1) * 2^k)`, on
/// its lower end unless `sticky`.
pub open spec fn locates(n: nat, k: int, sticky: bool, whole: nat, exact: bool) -> bool {
    if k >= 0 {
        &&& n * pow2(k as nat) <= whole < (n + 1) * pow2(k as nat)
        &&& sticky <==> !(whole == n * pow2(k as nat) && exact)
    } else {
        &&& whole == n / pow2((-k) as nat)
        &&& exact <==> !sticky && n % pow2((-k) as nat) == 0
    }
}

/// Dropping the last `r` bits of `n` finds the significand at scale `s` and what lies below it.
proof fn lemma_drop_bits(n: nat, k: int, sticky: bool, s: nat, r: nat, whole: nat, exact: bool)
    requires
        locates(n, k, sticky, whole, exact),
        r >= 1,
        r == s + 1 - k,
    ensures
        ({
            let m = (n / pow2(r)) as int;
            let rest = n % pow2(r);
            let half = pow2((r - 1) as nat);
            let position = if rest < half {
                Position::Below
            } else if rest > half || sticky {
                Position::Above
            } else {
                Position::Halfway
            };
            &&& 2 * (m * pow2(s)) <= whole < 2 * ((m + 1) * pow2(s))
            &&& lies(position, (2 * m + 1) * pow2(s), whole, exact)
        }),
{
    let p = pow2(r);
    let half = pow2((r - 1) as nat);
    let m = (n / p) as int;
    let rest = n % p;
    let ps = pow2(s);
    vstd::arithmetic::power2::lemma_pow2_pos(r);
    vstd::arithmetic::power2::lemma_pow2_pos(s);
    vstd::arithmetic::power2::lemma_pow2_pos((r - 1) as nat);
    vstd::arithmetic::power2::lemma_pow2_unfold(r);
    vstd::arithmetic::div_mod::lemma_fundamental_div_mod(n as int, p as int);
    assert(n == p * m + rest && p == 2 * half && rest < p);
    if k >= 0 {
        let pk = pow2(k as nat);
        vstd::arithmetic::power2::lemma_pow2_pos(k as nat);
        vstd::arithmetic::power2::lemma_pow2_adds((r - 1) as nat, k as nat);
        assert(ps == half * pk);
        assert(n * pk == 2 * (m * ps) + rest * pk) by (nonlinear_arith)
            requires
                n == p * m + rest,
                p == 2 * half,
                ps == half * pk,
        ;
        assert((n + 1) * pk == n * pk + pk) by (nonlinear_arith);
        assert((2 * m + 1) * ps == 2 * (m * ps) + ps) by (nonlinear_arith);
        assert(2 * ((m + 1) * ps) == 2 * (m * ps) + 2 * ps) by (nonlinear_arith);
        assert(rest * pk >= 0) by (nonlinear_arith)
            requires
                rest >= 0,
                pk >= 0,
        ;
        assert(rest * pk + pk <= 2 * ps) by (nonlinear_arith)
            requires
                rest + 1 <= 2 * half,
                ps == half * pk,
                pk > 0,
        ;
        if rest < half {
            assert(rest * pk + pk <= ps) by (nonlinear_arith)
                requires
                    rest + 1 <= half,
                    ps == half * pk,
                    pk > 0,
            ;
        } else if rest > half {
            assert(rest * pk >= ps + pk) by (nonlinear_arith)
                requires
                    rest >= half + 1,
                    ps == half * pk,
                    pk > 0,
            ;
        } else {
            assert(rest * pk == ps);
        }
    } else {
        let d = pow2((-k) as nat);
        vstd::arithmetic::power2::lemma_pow2_pos((-k) as nat);
        vstd::arithmetic::power2::lemma_pow2_adds(s, (-k) as nat);
        assert(half == ps * d);
        vstd::arithmetic::div_mod::lemma_fundamental_div_mod(n as int, d as int);
        let tail = n % d;
        assert(n == d * whole + tail && tail < d);
        assert(n == d * (2 * (m * ps)) + rest) by (nonlinear_arith)
            requires
                n == p * m + rest,
                p == 2 * half,
                half == ps * d,
        ;
        let base = 2 * (m * ps);
        assert((2 * m + 1) * ps == base + ps) by (nonlinear_arith)
            requires
                base == 2 * (m * ps),
        ;
        assert(2 * ((m + 1) * ps) == base + 2 * ps) by (nonlinear_arith)
            requires
                base == 2 * (m * ps),
        ;
        assert(base <= whole) by (nonlinear_arith)
            requires
                d * whole + tail == d * base + rest,
                tail < d,
                rest >= 0,
                d > 0,
        ;
        assert(whole < base + 2 * ps) by (nonlinear_arith)
            requires
                d * whole + tail == d * base + rest,
                rest < 2 * (ps * d),
                tail >= 0,
                d > 0,
        ;
        if rest < half {
            assert(whole < base + ps) by (nonlinear_arith)
                requires
                    d * whole + tail == d * base + rest,
                    rest < ps * d,
                    tail >= 0,
                    d > 0,
            ;
        } else {
            assert(whole >= base + ps) by (nonlinear_arith)
                requires
                    d * whole + tail == d * base + rest,
                    rest >= ps * d,
                    tail < d,
                    d > 0,
            ;
            if rest > half {
                if whole == base + ps {
                    assert(tail > 0) by (nonlinear_arith)
                        requires
                            d * whole + tail == d * base + rest,
                            rest > ps * d,
                            whole == base + ps,
                    ;
                }
            } else {
                assert(whole <= base + ps) by (nonlinear_arith)
                    requires
                        d * whole + tail == d * base + rest,
                        rest == ps * d,
                        0 <= tail,
                        d > 0,
                ;
                assert(tail == 0) by (nonlinear_arith)
                    requires
                        d * whole + tail == d * base + rest,
                        rest == ps * d,
                        whole == base + ps,
                ;
            }
        }
    }
}

/// A power of two as a machine integer.
pub(crate) fn power_of_two(e: u32) -> (p: u128)
    requires
        e < 128,
    ensures
        p == pow2(e as nat),
{
    let mut p: u128 = 1;
    let mut i: u32 = 0;
    proof {
        vstd::arithmetic::power2::lemma2_to64();
    }
    while i < e
        invariant
            i <= e < 128,
            p == pow2(i as nat),
        decreases e - i,
    {
        proof {
            lemma_pow2_below_128(i as nat + 1);
            vstd::arithmetic::power2::lemma_pow2_unfold(i as nat + 1);
        }
        p = p * 2;
        i = i + 1;
    }
    p
}

proof fn lemma_pow2_below_128(e: nat)
    requires
        e < 128,
    ensures
        pow2(e) <= u128::MAX,
{
    vstd::arithmetic::power2::lemma2_to64();
    vstd::arithmetic::power2::lemma2_to64_rest();
    vstd::arithmetic::power2::lemma_pow2_adds(64, 63);
    if e < 127 {
        vstd::arithmetic::power2::lemma_pow2_strictly_increases(e, 127);
    }
}

/// The number of bits of a positive integer.
fn bit_length(n: u128) -> (l: u32)
    requires
        0 < n < 0x10_0000_0000_0000_0000_0000_0000_0000,
    ensures
        1 <= l <= 116,
        pow2((l - 1) as nat) <= n < pow2(l as nat),
{
    let mut l: u32 = 1;
    let mut p: u128 = 2;
    proof {
        vstd::arithmetic::power2::lemma2_to64();
        vstd::arithmetic::power2::lemma2_to64_rest();
        vstd::arithmetic::power2::lemma_pow2_adds(64, 52);
    }
    while p <= n
        invariant
            1 <= l <= 116,
            p == pow2(l as nat),
            pow2((l - 1) as nat) <= n,
            n < 0x10_0000_0000_0000_0000_0000_0000_0000,
            pow2(116) == 0x10_0000_0000_0000_0000_0000_0000_0000,
        decreases 116 - l,
    {
        proof {
            if l == 116 {
                assert(false);
            }
            vstd::arithmetic::power2::lemma_pow2_unfold(l as nat + 1);
        }
        p = p * 2;
        l = l + 1;
    }
    l
}

/// The bits that are kept of an `l`-bit number make a significand, with the hidden bit set unless
/// the scale is the least one.
proof fn lemma_kept_bits(n: nat, l: nat, k: int, s: nat, r: int)
    requires
        l >= 1,
        pow2((l - 1) as nat) <= n < pow2(l),
        s == if l + k - 25 > 0 {
            l + k - 25
        } else {
            0
        },
        r == s + 1 - k,
    ensures
        r <= 0 ==> {
            &&& l - r <= 24
            &&& n * pow2((-r) as nat) < 2 * HIDDEN
            &&& s > 0 ==> n * pow2((-r) as nat) >= HIDDEN
        },
        r > 0 ==> {
            &&& n / pow2(r as nat) < 2 * HIDDEN
            &&& s > 0 ==> n / pow2(r as nat) >= HIDDEN
        },
{
    vstd::arithmetic::power2::lemma2_to64();
    if r <= 0 {
        let p = pow2((-r) as nat);
        vstd::arithmetic::power2::lemma_pow2_pos((-r) as nat);
        vstd::arithmetic::power2::lemma_pow2_adds(l, (-r) as nat);
        vstd::arithmetic::power2::lemma_pow2_adds((l - 1) as nat, (-r) as nat);
        if l - r < 24 {
            vstd::arithmetic::power2::lemma_pow2_strictly_increases((l - r) as nat, 24);
        }
        assert(n * p < pow2(l) * p) by (nonlinear_arith)
            requires
                n < pow2(l),
                p > 0,
        ;
        assert(n * p >= pow2((l - 1) as nat) * p) by (nonlinear_arith)
            requires
                n >= pow2((l - 1) as nat),
                p > 0,
        ;
    } else {
        let p = pow2(r as nat);
        vstd::arithmetic::power2::lemma_pow2_pos(r as nat);
        vstd::arithmetic::power2::lemma_pow2_adds(24, r as nat);
        vstd::arithmetic::power2::lemma_pow2_adds(23, r as nat);
        if l < 24 + r {
            vstd::arithmetic::power2::lemma_pow2_strictly_increases(l, (24 + r) as nat);
        }
        let q = n / p;
        vstd::arithmetic::div_mod::lemma_fundamental_div_mod(n as int, p as int);
        assert(q < 2 * HIDDEN) by (nonlinear_arith)
            requires
                p * q <= n,
                n < 0x100_0000 * p,
                p > 0,
                HIDDEN == 0x80_0000u32,
        ;
        if s > 0 {
            assert(q >= HIDDEN) by (nonlinear_arith)
                requires
                    n < p * q + p,
                    n >= 0x80_0000 * p,
                    p > 0,
                    HIDDEN == 0x80_0000u32,
            ;
        }
    }
}

/// A number that is on the grid of its significand is rounded to that significand.
proof fn lemma_shift_up(n: nat, k: int, s: nat, r: int, whole: nat, exact: bool)
    requires
        locates(n, k, false, whole, exact),
        r <= 0,
        r == s + 1 - k,
    ensures
        ({
            let m = n * pow2((-r) as nat);
            &&& 2 * (m * pow2(s)) <= whole < 2 * ((m + 1) * pow2(s))
            &&& lies(Position::Below, (2 * m + 1) * pow2(s) as int, whole, exact)
        }),
{
    let p = pow2((-r) as nat);
    let m = n * p;
    let ps = pow2(s);
    vstd::arithmetic::power2::lemma_pow2_pos(s);
    vstd::arithmetic::power2::lemma_pow2_unfold(s + 1);
    vstd::arithmetic::power2::lemma_pow2_adds((-r) as nat, s + 1);
    assert(n * (p * (2 * ps)) == 2 * (m * ps)) by (nonlinear_arith)
        requires
            m == n * p,
    ;
    assert((2 * m + 1) * ps == 2 * (m * ps) + ps) by (nonlinear_arith);
    assert(2 * ((m + 1) * ps) == 2 * (m * ps) + 2 * ps) by (nonlinear_arith);
}

/// Rounds the real number that lies in `[n * 2^k, (n + 1) * 2^k)`, on its lower end unless
/// `sticky`, to the nearest magnitude.
pub(crate) fn round_magnitude(
    n: u128,
    k: i32,
    sticky: bool,
    Ghost(whole): Ghost<nat>,
    Ghost(exact): Ghost<bool>,
) -> (code: u32)
    requires
        0 < n < 0x10_0000_0000_0000_0000_0000_0000_0000,
        -1000 <= k <= 1000,
        locates(n as nat, k as int, sticky, whole, exact),
        sticky ==> n >= 0x200_0000,
    ensures
        code == nearest(whole, exact),
        code <= INF_CODE,
{
    let l: u32 = bit_length(n);
    let top: i32 = l as i32 + k - 25;
    let s: i32 = if top > 0 {
        top
    } else {
        0
    };
    let r: i32 = s + 1 - k;
    proof {
        vstd::arithmetic::power2::lemma2_to64();
        if sticky && l < 26 {
            if l < 25 {
                vstd::arithmetic::power2::lemma_pow2_strictly_increases(l as nat, 25);
            }
            assert(false);
        }
        lemma_kept_bits(n as nat, l as nat, k as int, s as nat, r as int);
    }
    let mut m: u128 = 0;
    let mut up = false;
    let ghost mut position = Position::Below;
    if r <= 0 {
        m = n * power_of_two((-r) as u32);
        proof {
            lemma_shift_up(n as nat, k as int, s as nat, r as int, whole, exact);
        }
    } else {
        proof {
            lemma_drop_bits(n as nat, k as int, sticky, s as nat, r as nat, whole, exact);
            vstd::arithmetic::power2::lemma_pow2_pos(r as nat);
        }
        if r <= 118 {
            let p: u128 = power_of_two(r as u32);
            let half: u128 = power_of_two((r - 1) as u32);
            m = n / p;
            let rest: u128 = n % p;
            up = rest > half || (rest == half && (sticky || m % 2 == 1));
            proof {
                position = if rest < half {
                    Position::Below
                } else if rest > half || sticky {
                    Position::Above
                } else {
                    Position::Halfway
                };
            }
        } else {
            proof {
                lemma_far_below(n as nat, l as nat, r as nat);
            }
        }
    }
    proof {
        lemma_rounded_is_nearest(s as nat, m as int, position, whole, exact);
        assert(rounded(m as int, position) == m + if up {
            1int
        } else {
            0
        });
    }
    if s >= 254 {
        assert(s * HIDDEN + m >= INF_CODE);
        proof {
            lemma_nearest_is(INF_CODE, whole, exact);
        }
        return INF_CODE;
    }
    let base: u32 = s as u32 * HIDDEN + m as u32;
    let code: u32 = if up {
        base + 1
    } else {
        base
    };
    let code: u32 = if code < INF_CODE {
        code
    } else {
        INF_CODE
    };
    proof {
        lemma_nearest_is(code, whole, exact);
    }
    code
}

/// A number of at most 116 bits lies far below the half of a power of two with more than 118.
proof fn lemma_far_below(n: nat, l: nat, r: nat)
    requires
        n < pow2(l),
        l <= 116,
        r > 118,
    ensures
        n / pow2(r) == 0,
        n % pow2(r) < pow2((r - 1) as nat),
{
    vstd::arithmetic::power2::lemma_pow2_strictly_increases(l, (r - 1) as nat);
    vstd::arithmetic::power2::lemma_pow2_strictly_increases((r - 1) as nat, r);
    vstd::arithmetic::div_mod::lemma_small_mod(n, pow2(r));
    vstd::arithmetic::div_mod::lemma_basic_div(n as int, pow2(r) as int);
}

} // verus!
