//! Decimal text of binary32 numbers with a fixed number of decimal places.

use crate::arithmetic::parts;
use crate::rounding::{magnitude, power_of_two, INF_CODE};
use crate::scalar::Scalar;
use vstd::arithmetic::power2::pow2;
use vstd::prelude::*;

verus! {

/// The character of a decimal digit.
pub open spec fn digit(d: nat) -> char {
    (48 + d) as char
}

/// A natural number in decimal notation.
pub open spec fn numeral(n: nat) -> Seq<char>
    decreases n,
{
    if n < 10 {
        seq![digit(n)]
    } else {
        numeral(n / 10).push(digit(n % 10))
    }
}

/// The power of ten that shifts by so many decimal places.
pub open spec fn pow10(places: nat) -> nat {
    if places == 0 {
        1
    } else if places == 1 {
        10
    } else if places == 2 {
        100
    } else {
        1000
    }
}

/// The integer nearest to `num / den`, the even one of two that are equally near.
pub open spec fn half_even(num: nat, den: nat) -> nat {
    let q = num / den;
    let r = num % den;
    if 2 * r < den || (2 * r == den && q % 2 == 0) {
        q
    } else {
        q + 1
    }
}

/// The size of a finite number in units of the last decimal place shown.
pub open spec fn in_places(x: Scalar, places: nat) -> nat {
    half_even(magnitude(x.code() as int) as nat * pow10(places), pow2(149))
}

/// The last `places` decimal digits of `n`.
pub open spec fn fraction(n: nat, places: nat) -> Seq<char> {
    if places == 0 {
        seq![]
    } else if places == 1 {
        seq![digit(n % 10)]
    } else if places == 2 {
        seq![digit(n / 10 % 10), digit(n % 10)]
    } else {
        seq![digit(n / 100 % 10), digit(n / 10 % 10), digit(n % 10)]
    }
}

/// The text of a number without its sign.
pub open spec fn unsigned_text(x: Scalar, places: nat) -> Seq<char> {
    if x.is_nan() {
        "NaN"@
    } else if !x.is_finite() {
        "inf"@
    } else {
        let n = in_places(x, places);
        if places == 0 {
            numeral(n)
        } else {
            numeral(n / pow10(places)) + "."@ + fraction(n, places)
        }
    }
}

/// The text of a number, rounded to the nearest multiple of its last decimal place, ties to even.
pub open spec fn fixed_text(x: Scalar, places: nat) -> Seq<char> {
    if x.is_negative() && !x.is_nan() {
        "-"@ + unsigned_text(x, places)
    } else {
        unsigned_text(x, places)
    }
}

/// The text of a decimal digit.
fn digit_text(d: u128) -> (r: &'static str)
    requires
        d < 10,
    ensures
        r@ == seq![digit(d as nat)],
{
    proof {
        reveal_strlit("0");
        reveal_strlit("1");
        reveal_strlit("2");
        reveal_strlit("3");
        reveal_strlit("4");
        reveal_strlit("5");
        reveal_strlit("6");
        reveal_strlit("7");
        reveal_strlit("8");
        reveal_strlit("9");
    }
    if d == 0 {
        "0"
    } else if d == 1 {
        "1"
    } else if d == 2 {
        "2"
    } else if d == 3 {
        "3"
    } else if d == 4 {
        "4"
    } else if d == 5 {
        "5"
    } else if d == 6 {
        "6"
    } else if d == 7 {
        "7"
    } else if d == 8 {
        "8"
    } else {
        "9"
    }
}

/// Appends a natural number in decimal notation.
fn append_numeral(text: &mut String, n: u128)
    ensures
        final(text)@ == old(text)@ + numeral(n as nat),
    decreases n,
{
    if n < 10 {
        text.append(digit_text(n));
    } else {
        append_numeral(text, n / 10);
        text.append(digit_text(n % 10));
    }
}

/// Appends the last decimal digits of a natural number.
fn append_fraction(text: &mut String, n: u128, places: u32)
    requires
        places <= 3,
    ensures
        final(text)@ == old(text)@ + fraction(n as nat, places as nat),
{
    if places >= 3 {
        text.append(digit_text(n / 100 % 10));
    }
    if places >= 2 {
        text.append(digit_text(n / 10 % 10));
    }
    if places >= 1 {
        text.append(digit_text(n % 10));
    }
}

/// A common factor does not change what a fraction is rounded to.
proof fn lemma_half_even_scales(a: nat, b: nat, c: nat)
    requires
        b > 0,
        c > 0,
    ensures
        half_even(a * c, b * c) == half_even(a, b),
{
    let q = (a / b) as int;
    let r = (a % b) as int;
    vstd::arithmetic::div_mod::lemma_fundamental_div_mod(a as int, b as int);
    assert(a * c == q * (b * c) + r * c) by (nonlinear_arith)
        requires
            a == b * q + r,
    ;
    assert(0 <= r * c < b * c) by (nonlinear_arith)
        requires
            0 <= r < b,
            c > 0,
    ;
    vstd::arithmetic::div_mod::lemma_fundamental_div_mod_converse(
        (a * c) as int,
        (b * c) as int,
        q,
        r * c,
    );
    assert(2 * (r * c) < b * c <==> 2 * r < b) by (nonlinear_arith)
        requires
            c > 0,
    ;
    assert(2 * (r * c) == b * c <==> 2 * r == b) by (nonlinear_arith)
        requires
            c > 0,
    ;
}

/// A whole multiple is not rounded.
proof fn lemma_half_even_of_multiple(n: nat, den: nat)
    requires
        den > 0,
    ensures
        half_even(n * den, den) == n,
{
    vstd::arithmetic::div_mod::lemma_fundamental_div_mod_converse(
        (n * den) as int,
        den as int,
        n as int,
        0,
    );
}

/// A fraction below one half is rounded to zero.
proof fn lemma_half_even_of_little(num: nat, den: nat)
    requires
        2 * num < den,
    ensures
        half_even(num, den) == 0,
{
    vstd::arithmetic::div_mod::lemma_small_mod(num, den);
    vstd::arithmetic::div_mod::lemma_basic_div(num as int, den as int);
}

/// A whole number shows zeros behind the point.
proof fn lemma_whole_number(n: nat, places: nat)
    requires
        places <= 3,
    ensures
        n * pow10(places) / pow10(places) == n,
        fraction(n * pow10(places), places) == fraction(0, places),
{
    if places == 1 {
        assert(n * pow10(places) == 10 * n);
    } else if places == 2 {
        assert(n * pow10(places) == 100 * n);
    } else if places == 3 {
        assert(n * pow10(places) == 1000 * n);
    }
}

/// Appends the decimal text of a finite number without its sign.
fn append_size(text: &mut String, code: u32, places: u32, Ghost(x): Ghost<Scalar>)
    requires
        places <= 3,
        code == x.code(),
        x.is_finite(),
    ensures
        final(text)@ == old(text)@ + unsigned_text(x, places as nat),
{
    let (m, s) = parts(code);
    let ten: u128 = if places == 0 {
        1
    } else if places == 1 {
        10
    } else if places == 2 {
        100
    } else {
        1000
    };
    let ghost n = in_places(x, places as nat);
    let ghost num = magnitude(code as int) as nat * pow10(places as nat);
    proof {
        vstd::arithmetic::power2::lemma_pow2_pos(149);
        vstd::arithmetic::power2::lemma_pow2_pos(s as nat);
    }
    let whole: u128;
    let rest: u128;
    if s >= 149 {
        let f: u128 = power_of_two(s - 149);
        proof {
            vstd::arithmetic::power2::lemma2_to64();
            vstd::arithmetic::power2::lemma2_to64_rest();
            vstd::arithmetic::power2::lemma_pow2_adds(64, 40);
            if s - 149 < 104 {
                vstd::arithmetic::power2::lemma_pow2_strictly_increases((s - 149) as nat, 104);
            }
            assert(m * f <= 0xff_ffff * 0x100_0000_0000_0000_0000_0000_0000) by (nonlinear_arith)
                requires
                    0 <= m <= 0xff_ffff,
                    0 <= f <= 0x100_0000_0000_0000_0000_0000_0000,
            ;
            vstd::arithmetic::power2::lemma_pow2_adds((s - 149) as nat, 149);
            let i = (m * f) as nat;
            assert(num == (i * ten) as nat * pow2(149)) by (nonlinear_arith)
                requires
                    num == (m * (f * pow2(149))) * ten,
                    i == m * f,
            ;
            lemma_half_even_of_multiple((i * ten) as nat, pow2(149));
        }
        whole = m as u128 * f;
        rest = 0;
        assert(n == whole * ten);
        proof {
            lemma_whole_number(whole as nat, places as nat);
        }
    } else {
        let e: u32 = 149 - s;
        let a: u128 = m as u128 * ten;
        proof {
            vstd::arithmetic::power2::lemma_pow2_adds(e as nat, s as nat);
            vstd::arithmetic::power2::lemma_pow2_pos(e as nat);
            assert(num == a * pow2(s as nat)) by (nonlinear_arith)
                requires
                    num == (m * pow2(s as nat)) * ten,
                    a == m * ten,
            ;
            lemma_half_even_scales(a as nat, pow2(e as nat), pow2(s as nat));
        }
        let mut places_in: u128 = 0;
        if e <= 40 {
            let den: u128 = power_of_two(e);
            let r: u128 = a % den;
            places_in = a / den;
            proof {
                vstd::arithmetic::power2::lemma2_to64();
                vstd::arithmetic::power2::lemma2_to64_rest();
                if e < 40 {
                    vstd::arithmetic::power2::lemma_pow2_strictly_increases(e as nat, 40);
                }
                vstd::arithmetic::div_mod::lemma_div_nonincreasing(a as int, den as int);
            }
            if !(2 * r < den || (2 * r == den && places_in % 2 == 0)) {
                places_in = places_in + 1;
            }
        } else {
            proof {
                vstd::arithmetic::power2::lemma2_to64();
                vstd::arithmetic::power2::lemma2_to64_rest();
                vstd::arithmetic::power2::lemma_pow2_strictly_increases(40, e as nat);
                lemma_half_even_of_little(a as nat, pow2(e as nat));
            }
        }
        assert(n == places_in);
        whole = places_in / ten;
        rest = places_in;
    }
    append_numeral(text, whole);
    if places > 0 {
        text.append(".");
        append_fraction(text, rest, places);
    }
    assert(whole == n / pow10(places as nat));
}

/// The text of a number, rounded to the nearest multiple of its last decimal place, ties to even.
pub fn fixed(x: Scalar, places: u32) -> (text: String)
    requires
        places <= 3,
    ensures
        text@ == fixed_text(x, places as nat),
{
    if x.is_nan() {
        return String::from_str("NaN");
    }
    let mut text = String::new();
    if x.is_negative() {
        text.append("-");
    }
    let code: u32 = x.magnitude_code();
    if code == INF_CODE {
        text.append("inf");
    } else {
        append_size(&mut text, code, places, Ghost(x));
    }
    text
}

/// The number that a text of decimal digits stands for.
pub open spec fn reading(text: Seq<char>) -> int
    decreases text.len(),
{
    if text.len() == 0 {
        0
    } else {
        10 * reading(text.drop_last()) + (text.last() as int - '0' as int)
    }
}

/// Whether a text is made of decimal digits.
pub open spec fn all_digits(text: Seq<char>) -> bool {
    forall|i: int| 0 <= i < text.len() ==> '0' <= #[trigger] text[i] <= '9'
}

/// A natural number in decimal notation reads as that number, in digits, without leading zeros.
pub proof fn law_numeral_reads_back(n: nat)
    ensures
        reading(numeral(n)) == n,
        all_digits(numeral(n)),
        numeral(n).len() > 0,
        n > 0 ==> numeral(n)[0] != '0',
    decreases n,
{
    reveal_with_fuel(reading, 2);
    if n < 10 {
        let text = seq![digit(n)];
        assert(text.drop_last() =~= Seq::empty());
    } else {
        law_numeral_reads_back(n / 10);
        let text = numeral(n);
        assert(text.drop_last() =~= numeral(n / 10));
    }
}

/// The digits behind the point read as what the whole number of last places is beyond the whole,
/// and there are as many of them as places.
#[verifier::spinoff_prover]
pub proof fn law_fraction_reads_back(n: nat, places: nat)
    requires
        places <= 3,
    ensures
        reading(fraction(n, places)) == n % pow10(places),
        all_digits(fraction(n, places)),
        fraction(n, places).len() == places,
{
    let none = Seq::<char>::empty();
    let a = n / 100 % 10;
    let b = n / 10 % 10;
    let c = n % 10;
    lemma_last_digits(n);
    if places == 1 {
        assert(fraction(n, places) =~= none.push(digit(c)));
        lemma_one_more_digit(none, c);
    } else if places == 2 {
        assert(fraction(n, places) =~= none.push(digit(b)).push(digit(c)));
        lemma_one_more_digit(none, b);
        lemma_one_more_digit(none.push(digit(b)), c);
    } else if places == 3 {
        assert(fraction(n, places) =~= none.push(digit(a)).push(digit(b)).push(digit(c)));
        lemma_one_more_digit(none, a);
        lemma_one_more_digit(none.push(digit(a)), b);
        lemma_one_more_digit(none.push(digit(a)).push(digit(b)), c);
    }
}

/// The last digits of a number make its remainders.
proof fn lemma_last_digits(n: nat)
    ensures
        n % 1 == 0,
        n % 100 == 10 * (n / 10 % 10) + n % 10,
        n % 1000 == 100 * (n / 100 % 10) + 10 * (n / 10 % 10) + n % 10,
{
    let q = n / 10;
    let r = n / 100;
    assert(n == 10 * q + n % 10);
    assert(r == q / 10);
    assert(q == 10 * r + q % 10);
    assert(r == 10 * (r / 10) + r % 10);
    assert(n / 1000 == r / 10);
}

/// One more digit makes a number ten times as large, and adds the digit.
proof fn lemma_one_more_digit(text: Seq<char>, d: nat)
    requires
        d < 10,
        all_digits(text),
    ensures
        reading(text.push(digit(d))) == 10 * reading(text) + d,
        all_digits(text.push(digit(d))),
{
    assert(text.push(digit(d)).drop_last() =~= text);
}

/// A number is shown by the multiple of its last decimal place that is nearest to it: off by at
/// most half a place.
pub proof fn law_shown_number_is_nearest(x: Scalar, places: nat)
    requires
        places <= 3,
    ensures
        ({
            let n = in_places(x, places) as int;
            let ten: int = if places == 0 {
                1
            } else if places == 1 {
                10
            } else if places == 2 {
                100
            } else {
                1000
            };
            let exact = magnitude(x.code() as int) * ten;
            &&& 2 * (n * pow2(149) - exact) <= pow2(149)
            &&& 2 * (exact - n * pow2(149)) <= pow2(149)
            &&& 2 * (n * pow2(149) - exact) == pow2(149) || 2 * (exact - n * pow2(149)) == pow2(149)
                ==> n % 2 == 0
        }),
{
    let num = magnitude(x.code() as int) as nat * pow10(places);
    let den = pow2(149) as int;
    let q = (num / pow2(149)) as int;
    let r = (num % pow2(149)) as int;
    crate::scalar::lemma_magnitude_sign(x.code() as int);
    vstd::arithmetic::power2::lemma_pow2_pos(149);
    vstd::arithmetic::div_mod::lemma_fundamental_div_mod(num as int, den);
    assert((q + 1) * den == den * q + den) by (nonlinear_arith);
    assert(q * den == den * q) by (nonlinear_arith);
}

/// A finite number is shown as its whole part and as many decimal digits as asked for, after a
/// point if there are any, and after a minus exactly where it is negative.
pub proof fn law_text_of_number(x: Scalar, places: nat)
    requires
        places <= 3,
        x.is_finite(),
    ensures
        ({
            let n = in_places(x, places);
            let ten: nat = if places == 0 {
                1
            } else if places == 1 {
                10
            } else if places == 2 {
                100
            } else {
                1000
            };
            let sign = if x.is_negative() {
                "-"@
            } else {
                Seq::empty()
            };
            let whole = numeral(n / ten);
            &&& places == 0 ==> fixed_text(x, places) == sign + whole
            &&& places > 0 ==> fixed_text(x, places) == sign + (whole + "."@ + fraction(n, places))
            &&& reading(whole) * ten + reading(fraction(n, places)) == n
        }),
{
    let n = in_places(x, places);
    law_numeral_reads_back(n / pow10(places));
    law_fraction_reads_back(n, places);
    if places == 0 {
        assert(n / 1 == n);
        assert(fraction(n, places) =~= Seq::empty());
    }
    if !x.is_negative() {
        assert(fixed_text(x, places) =~= Seq::<char>::empty() + unsigned_text(x, places));
    }
}

/// What is no number is shown so, and what is infinite with its sign.
pub proof fn law_text_of_the_rest(x: Scalar, places: nat)
    requires
        !x.is_finite(),
    ensures
        x.is_nan() ==> fixed_text(x, places) == "NaN"@,
        !x.is_nan() && x.is_negative() ==> fixed_text(x, places) == "-"@ + "inf"@,
        !x.is_nan() && !x.is_negative() ==> fixed_text(x, places) == "inf"@,
{
}

} // verus!
