//! Large numbers in short: a count divided by a thousand, a million or a billion, with a few
//! decimals.
//!
//! The quotient is the one of binary floating point with a 53-bit significand, and its decimals
//! are those of its exact value. Both steps round to the nearest, and to the even one of two that
//! are equally near. That decides cases such as 1.05, which lies a little above its decimal
//! numeral, and 1.15, which lies a little below.
use vstd::prelude::*;

use crate::text::{cat3, decimal, padded, padded_string, wide_decimal_string};

verus! {

/// 2 to the power of 53.
pub const SIGNIFICAND: u128 = 9_007_199_254_740_992;

/// 2 to the power of 52.
pub const FINEST: u128 = 4_503_599_627_370_496;

/// The integer nearest to `a / b`, and the even one of two that are equally near.
pub open spec fn nearest(a: nat, b: nat) -> nat {
    let q = a / b;
    let r = a % b;
    if 2 * r < b {
        q
    } else if 2 * r > b {
        q + 1
    } else if q % 2 == 0 {
        q
    } else {
        q + 1
    }
}

fn nearest_of(a: u128, b: u128) -> (r: u128)
    requires
        0 < b <= 0x1_0000_0000_0000_0000_0000_0000,
    ensures
        r == nearest(a as nat, b as nat),
{
    let q: u128 = a / b;
    let rest: u128 = a % b;
    if b == 1 {
        return q;
    }
    assert(q < u128::MAX) by (nonlinear_arith)
        requires
            q == a / b,
            b >= 2,
            a <= u128::MAX,
    ;
    if 2 * rest < b {
        q
    } else if 2 * rest > b {
        q + 1
    } else if q % 2 == 0 {
        q
    } else {
        q + 1
    }
}

/// The grain of floating-point integers of the size of `n`, from `g` on: the power of two by
/// which `n` has at most 53 binary digits.
pub open spec fn grain(n: nat, g: nat) -> nat
    decreases n / g,
{
    if g == 0 || n / g < SIGNIFICAND {
        g
    } else {
        proof {
            assert(n / (2 * g) < n / g) by (nonlinear_arith)
                requires
                    g > 0,
                    n / g >= 1,
            {
                vstd::arithmetic::div_mod::lemma_div_denominator(n as int, g as int, 2);
            }
        }
        grain(n, 2 * g)
    }
}

/// The floating-point number nearest to the integer.
pub open spec fn as_double(n: nat) -> nat {
    let g = grain(n, 1);
    nearest(n, g) * g
}

/// The scale at which the quotient `a / b` has 53 binary digits, from `p` downwards.
pub open spec fn scale(a: nat, b: nat, p: nat) -> nat
    decreases p,
{
    if p <= 1 || a * p / b < SIGNIFICAND {
        p
    } else {
        scale(a, b, p / 2)
    }
}

/// The power of ten.
pub open spec fn ten_to(digits: nat) -> nat
    decreases digits,
{
    if digits == 0 {
        1
    } else {
        10 * ten_to((digits - 1) as nat)
    }
}

/// The floating-point quotient of `n` and `unit`, in units of its last decimal.
pub open spec fn quotient_units(n: nat, unit: nat, digits: nat) -> nat {
    let a = as_double(n);
    let p = scale(a, unit, FINEST as nat);
    let significand = nearest(a * p, unit);
    nearest(significand * ten_to(digits), p)
}

/// The floating-point quotient of `n` and `unit`, with `digits` decimals.
pub open spec fn quotient_text(n: nat, unit: nat, digits: nat) -> Seq<char> {
    let units = quotient_units(n, unit, digits);
    if digits == 0 {
        decimal(units)
    } else {
        decimal(units / ten_to(digits)) + "."@ + padded(units % ten_to(digits), digits)
    }
}

fn double_of(n: u64) -> (r: u128)
    ensures
        r == as_double(n as nat),
        r <= 0x2_0000_0000_0000_0000,
{
    let wide: u128 = n as u128;
    let mut g: u128 = 1;
    while wide / g >= SIGNIFICAND
        invariant
            wide == n,
            1 <= g <= 0x1_0000,
            grain(n as nat, 1) == grain(n as nat, g as nat),
        decreases wide / g,
    {
        assert(g < 0x8000) by (nonlinear_arith)
            requires
                wide / g >= SIGNIFICAND,
                wide <= u64::MAX,
                g >= 1,
        ;
        assert((wide as int) / (2 * g) < (wide as int) / (g as int)) by (nonlinear_arith)
            requires
                g > 0,
                (wide as int) / (g as int) >= 1,
        {
            vstd::arithmetic::div_mod::lemma_div_denominator(wide as int, g as int, 2);
        }
        g = 2 * g;
    }
    let q: u128 = nearest_of(wide, g);
    assert(q * g <= wide + g) by (nonlinear_arith)
        requires
            q <= wide / g + 1,
            g >= 1,
    {
        vstd::arithmetic::div_mod::lemma_fundamental_div_mod(wide as int, g as int);
    }
    q * g
}

fn scale_of(a: u128, b: u128) -> (r: u128)
    requires
        a <= 0x2_0000_0000_0000_0000,
        b >= 1,
    ensures
        r == scale(a as nat, b as nat, FINEST as nat),
        1 <= r <= FINEST,
        r > 1 ==> a * r / (b as int) < SIGNIFICAND,
{
    let mut p: u128 = FINEST;
    while p > 1
        invariant
            a <= 0x2_0000_0000_0000_0000,
            b >= 1,
            1 <= p <= FINEST,
            scale(a as nat, b as nat, FINEST as nat) == scale(a as nat, b as nat, p as nat),
        decreases p,
    {
        assert(a * p <= 0x2_0000_0000_0000_0000 * 4_503_599_627_370_496) by (nonlinear_arith)
            requires
                a <= 0x2_0000_0000_0000_0000,
                p <= 4_503_599_627_370_496,
        ;
        if a * p / b < SIGNIFICAND {
            return p;
        }
        p = p / 2;
    }
    p
}

fn power_of_ten(digits: usize) -> (r: u128)
    requires
        digits <= 3,
    ensures
        r == ten_to(digits as nat),
        1 <= r <= 1000,
{
    proof {
        reveal_with_fuel(ten_to, 4);
    }
    if digits == 0 {
        1
    } else if digits == 1 {
        10
    } else if digits == 2 {
        100
    } else {
        1000
    }
}

/// The floating-point quotient of `n` and `unit`, with `digits` decimals. The quotient is at
/// least 1 and has no more than 53 binary digits before the point.
pub fn quotient_string(n: u64, unit: u64, digits: usize) -> (r: String)
    requires
        1 <= unit <= n,
        n / unit < 9_000_000_000_000_000,
        digits <= 3,
    ensures
        r@ == quotient_text(n as nat, unit as nat, digits as nat),
{
    let wide: u128 = unit as u128;
    let a: u128 = double_of(n);
    let p: u128 = scale_of(a, wide);
    assert(a * p <= 0x2_0000_0000_0000_0000 * 4_503_599_627_370_496) by (nonlinear_arith)
        requires
            a <= 0x2_0000_0000_0000_0000,
            p <= 4_503_599_627_370_496,
    ;
    assert(a * p / (wide as int) <= 0x2_0000_0000_0000_0000) by {
        if p == 1 {
            assert(a * 1 == a) by (nonlinear_arith);
            assert((a as int) / (wide as int) <= a) by (nonlinear_arith)
                requires
                    wide >= 1,
                    a >= 0,
            ;
        }
    }
    let significand: u128 = nearest_of(a * p, wide);
    let tens: u128 = power_of_ten(digits);
    assert(significand * tens <= 0x2_0000_0000_0000_0001 * 1000) by (nonlinear_arith)
        requires
            significand <= 0x2_0000_0000_0000_0001,
            tens <= 1000,
    ;
    let units: u128 = nearest_of(significand * tens, p);
    if digits == 0 {
        return wide_decimal_string(units);
    }
    let whole = wide_decimal_string(units / tens);
    let rest: u128 = units % tens;
    let decimals = padded_string(rest as u64, digits);
    cat3(whole.as_str(), ".", decimals.as_str())
}

/// A count in short: with one decimal in thousands, millions or billions.
pub open spec fn count_text(n: u64) -> Seq<char> {
    if n < 1_000 {
        decimal(n as nat)
    } else if n < 1_000_000 {
        quotient_text(n as nat, 1_000, 1) + "k"@
    } else if n < 1_000_000_000 {
        quotient_text(n as nat, 1_000_000, 1) + "M"@
    } else {
        quotient_text(n as nat, 1_000_000_000, 1) + "B"@
    }
}

/// A rounded quotient is nearest: it misses by half a unit at most.
pub proof fn nearest_is_near(a: nat, b: nat)
    requires
        b > 0,
    ensures
        2 * a <= 2 * (nearest(a, b) * b) + b,
        2 * (nearest(a, b) * b) <= 2 * a + b,
{
    vstd::arithmetic::div_mod::lemma_fundamental_div_mod(a as int, b as int);
    let q = a / b;
    assert((q + 1) * b == q * b + b) by (nonlinear_arith);
    assert(b * q == q * b) by (nonlinear_arith);
}

/// Counts of fewer than 54 binary digits are taken as they are.
pub proof fn small_counts_are_exact(n: nat)
    requires
        n < SIGNIFICAND,
    ensures
        as_double(n) == n,
{
    assert(n / 1 == n);
    assert(n % 1 == 0);
    assert(nearest(n, 1) == n);
    assert(n * 1 == n) by (nonlinear_arith);
}

/// The number of megabytes of 1024 times 1024 bytes, to the nearest.
pub fn nearest_megabytes(bytes: u64) -> (r: u128)
    ensures
        r == nearest(bytes as nat, 1_048_576),
{
    nearest_of(bytes as u128, 1_048_576)
}

proof fn lemma_whole(k: nat, b: nat)
    requires
        b > 0,
    ensures
        nearest(k * b, b) == k,
{
    vstd::arithmetic::div_mod::lemma_div_multiples_vanish(k as int, b as int);
    vstd::arithmetic::div_mod::lemma_mod_multiples_basic(k as int, b as int);
    assert(k * b == b * k) by (nonlinear_arith);
}

proof fn lemma_scale_is_positive(a: nat, b: nat, p: nat)
    requires
        p > 0,
    ensures
        scale(a, b, p) > 0,
    decreases p,
{
    if p > 1 && a * p / b >= SIGNIFICAND {
        lemma_scale_is_positive(a, b, p / 2);
    }
}

/// A whole number of units is told as that number, with nothing behind the point.
pub proof fn whole_units_are_told_whole(units: nat, unit: nat, digits: nat)
    requires
        unit > 0,
        units * unit < SIGNIFICAND,
    ensures
        quotient_units(units * unit, unit, digits) == units * ten_to(digits),
{
    let n = units * unit;
    small_counts_are_exact(n);
    let p = scale(n, unit, FINEST as nat);
    lemma_scale_is_positive(n, unit, FINEST as nat);
    assert(n * p == (units * p) * unit) by (nonlinear_arith)
        requires
            n == units * unit,
    ;
    lemma_whole(units * p, unit);
    let ten = ten_to(digits);
    assert((units * p) * ten == (units * ten) * p) by (nonlinear_arith);
    lemma_whole(units * ten, p);
}

/// Counts are told whole below a thousand, then in thousands, in millions and in billions.
pub proof fn counts_have_their_unit(n: u64)
    ensures
        n <= 999 ==> count_text(n) == decimal(n as nat),
        1_000 <= n <= 999_999 ==> count_text(n) == quotient_text(n as nat, 1_000, 1) + "k"@,
        1_000_000 <= n <= 999_999_999 ==> count_text(n) == quotient_text(n as nat, 1_000_000, 1)
            + "M"@,
        n >= 1_000_000_000 ==> count_text(n) == quotient_text(n as nat, 1_000_000_000, 1) + "B"@,
{
}

/// The digits before and behind the point are those of the quotient, and there are as many behind
/// it as were asked for.
pub proof fn quotients_have_their_digits(n: nat, unit: nat, whole: nat, part: nat)
    requires
        quotient_units(n, unit, 2) == 100 * whole + part,
        part < 100,
    ensures
        quotient_text(n, unit, 2) == decimal(whole) + "."@ + padded(part, 2),
{
    assert(ten_to(2) == 100) by {
        reveal_with_fuel(ten_to, 3);
    }
    assert((100 * whole + part) / 100 == whole);
    assert((100 * whole + part) % 100 == part);
}

/// A quotient that lies in the middle between two whole numbers goes to the even one.
pub proof fn halves_go_to_the_even_number(whole: nat, half: nat)
    requires
        half > 0,
    ensures
        nearest(2 * half * whole + half, 2 * half) % 2 == 0,
        nearest(2 * half * whole + half, 2 * half) == whole || nearest(
            2 * half * whole + half,
            2 * half,
        ) == whole + 1,
{
    let a = 2 * half * whole + half;
    let b = 2 * half;
    assert(a == whole * b + half) by (nonlinear_arith)
        requires
            a == 2 * half * whole + half,
            b == 2 * half,
    ;
    vstd::arithmetic::div_mod::lemma_fundamental_div_mod_converse(
        a as int,
        b as int,
        whole as int,
        half as int,
    );
}

} // verus!
