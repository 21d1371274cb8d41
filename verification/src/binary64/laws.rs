//! What holds of every rounded result.

use super::{
    at_most, below, decimal, difference, nearest_even, nearest_magnitude, one_units, product,
    quotient, rounded, spacing, sum, units_of, Binary64, HIDDEN, INFINITE,
};
use super::{lemma_pow2_at_most, lemma_spacing_is, lemma_units_increase};
use vstd::arithmetic::power2::pow2;
use vstd::prelude::*;

verus! {

/// The interval that the spacing of a ratio puts it in.
proof fn lemma_spacing_bounds(n: nat, d: nat)
    requires
        d > 0,
    ensures
        n < d * pow2(53 + spacing(n, d)),
        spacing(n, d) > 0 ==> n >= d * pow2((52 + spacing(n, d)) as nat),
    decreases n - d,
{
    vstd::arithmetic::power2::lemma2_to64_rest();
    if n >= d * pow2(53) {
        assert(d * 0x20_0000_0000_0000 >= 2 * d) by (nonlinear_arith)
            requires
                d > 0,
        ;
        lemma_spacing_bounds(n, 2 * d);
        let j = spacing(n, 2 * d);
        vstd::arithmetic::power2::lemma_pow2_unfold(54 + j);
        vstd::arithmetic::power2::lemma_pow2_unfold(53 + j);
        assert(2 * d * pow2(53 + j) == d * (2 * pow2(53 + j))) by (nonlinear_arith);
        assert(2 * d * pow2((52 + j) as nat) == d * (2 * pow2((52 + j) as nat)))
            by (nonlinear_arith);
    }
}

/// Rounding to an integer keeps order.
proof fn lemma_nearest_even_monotone(n1: nat, d1: nat, n2: nat, d2: nat)
    requires
        d1 > 0,
        d2 > 0,
        n1 * d2 <= n2 * d1,
    ensures
        nearest_even(n1, d1) <= nearest_even(n2, d2),
{
    let q1 = n1 / d1;
    let r1 = n1 % d1;
    let q2 = n2 / d2;
    let r2 = n2 % d2;
    vstd::arithmetic::div_mod::lemma_fundamental_div_mod(n1 as int, d1 as int);
    vstd::arithmetic::div_mod::lemma_fundamental_div_mod(n2 as int, d2 as int);
    assert(n1 * d2 == q1 * (d1 * d2) + r1 * d2) by (nonlinear_arith)
        requires
            n1 == d1 * q1 + r1,
    ;
    assert(n2 * d1 == q2 * (d1 * d2) + r2 * d1) by (nonlinear_arith)
        requires
            n2 == d2 * q2 + r2,
    ;
    assert(0 <= r1 * d2 && r2 * d1 < d1 * d2) by (nonlinear_arith)
        requires
            r2 < d2,
            d1 > 0,
    ;
    let dd = d1 * d2;
    assert(q1 <= q2) by (nonlinear_arith)
        requires
            q1 * dd <= q2 * dd + r2 * d1,
            r2 * d1 < dd,
            r2 * d1 >= 0,
    ;
    if q1 == q2 {
        assert(r1 * d2 <= r2 * d1);
        if 2 * r2 < d2 {
            assert(2 * r1 < d1) by (nonlinear_arith)
                requires
                    r1 * d2 <= r2 * d1,
                    2 * r2 < d2,
                    d1 > 0,
            ;
        } else if 2 * r2 == d2 {
            assert(2 * r1 <= d1) by (nonlinear_arith)
                requires
                    r1 * d2 <= r2 * d1,
                    2 * r2 == d2,
                    d2 > 0,
            ;
        }
    }
}

/// A larger ratio is never rounded to a smaller number.
pub proof fn law_rounding_keeps_order(n1: nat, d1: nat, n2: nat, d2: nat)
    requires
        d1 > 0,
        d2 > 0,
        n1 * d2 <= n2 * d1,
    ensures
        nearest_magnitude(n1, d1) <= nearest_magnitude(n2, d2),
{
    let k1 = spacing(n1, d1);
    let k2 = spacing(n2, d2);
    lemma_spacing_bounds(n1, d1);
    lemma_spacing_bounds(n2, d2);
    let s1 = pow2(k1);
    let s2 = pow2(k2);
    vstd::arithmetic::power2::lemma_pow2_pos(k1);
    vstd::arithmetic::power2::lemma_pow2_pos(k2);
    vstd::arithmetic::power2::lemma2_to64_rest();
    if k1 > k2 {
        let w = pow2(53 + k2);
        lemma_pow2_at_most(53 + k2, (52 + k1) as nat);
        assert(false) by (nonlinear_arith)
            requires
                n1 >= d1 * pow2((52 + k1) as nat),
                pow2((52 + k1) as nat) >= w,
                n2 < d2 * w,
                n1 * d2 <= n2 * d1,
                d1 > 0,
                d2 > 0,
        {
            assert(d1 * pow2((52 + k1) as nat) >= d1 * w);
            assert(n1 * d2 >= (d1 * w) * d2);
            assert(n2 * d1 < (d2 * w) * d1);
            assert((d1 * w) * d2 == (d2 * w) * d1);
        }
    }
    assert(d1 * s1 > 0 && d2 * s2 > 0) by (nonlinear_arith)
        requires
            d1 > 0,
            d2 > 0,
            s1 > 0,
            s2 > 0,
    ;
    if k1 == k2 {
        assert(n1 * (d2 * s1) <= n2 * (d1 * s1)) by (nonlinear_arith)
            requires
                n1 * d2 <= n2 * d1,
        {
            assert(n1 * (d2 * s1) == (n1 * d2) * s1);
            assert(n2 * (d1 * s1) == (n2 * d1) * s1);
        }
        lemma_nearest_even_monotone(n1, d1 * s1, n2, d2 * s2);
    } else {
        let e1 = d1 * s1;
        let e2 = d2 * s2;
        vstd::arithmetic::power2::lemma_pow2_adds(53, k1);
        vstd::arithmetic::power2::lemma_pow2_adds(52, k2);
        assert(n1 < e1 * 0x20_0000_0000_0000) by (nonlinear_arith)
            requires
                n1 < d1 * (0x20_0000_0000_0000 * s1),
                e1 == d1 * s1,
        ;
        assert(n2 >= e2 * 0x10_0000_0000_0000) by (nonlinear_arith)
            requires
                n2 >= d2 * (0x10_0000_0000_0000 * s2),
                e2 == d2 * s2,
        ;
        vstd::arithmetic::div_mod::lemma_fundamental_div_mod(n1 as int, e1 as int);
        vstd::arithmetic::div_mod::lemma_fundamental_div_mod(n2 as int, e2 as int);
        let q1 = n1 / e1;
        let q2 = n2 / e2;
        assert(q1 < 0x20_0000_0000_0000) by (nonlinear_arith)
            requires
                e1 * q1 <= n1,
                n1 < e1 * 0x20_0000_0000_0000,
        ;
        assert(q2 >= 0x10_0000_0000_0000) by (nonlinear_arith)
            requires
                n2 < e2 * q2 + e2,
                n2 >= e2 * 0x10_0000_0000_0000,
        ;
    }
}

/// A number is rounded to itself.
pub proof fn law_numbers_are_exact(magnitude: nat)
    requires
        magnitude < INFINITE,
    ensures
        nearest_magnitude(units_of(magnitude), 1) == magnitude,
{
    let h = HIDDEN as nat;
    let n = units_of(magnitude);
    vstd::arithmetic::power2::lemma2_to64();
    vstd::arithmetic::power2::lemma2_to64_rest();
    if magnitude < h {
        assert(spacing(n, 1) == 0);
        assert(nearest_even(n, 1 * pow2(0)) == n);
    } else {
        let k = (magnitude / h - 1) as nat;
        let m = h + magnitude % h;
        let s = pow2(k);
        vstd::arithmetic::power2::lemma_pow2_pos(k);
        vstd::arithmetic::power2::lemma_pow2_adds(53, k);
        vstd::arithmetic::power2::lemma_pow2_adds(52, k);
        assert(m * s < 1 * (0x20_0000_0000_0000 * s)) by (nonlinear_arith)
            requires
                m < 0x20_0000_0000_0000,
                s > 0,
        ;
        assert(m * s >= 1 * (0x10_0000_0000_0000 * s)) by (nonlinear_arith)
            requires
                m >= 0x10_0000_0000_0000,
        ;
        lemma_spacing_is(n, 1, k);
        vstd::arithmetic::div_mod::lemma_fundamental_div_mod_converse(n as int, s as int, m as int, 0);
        assert(nearest_even(n, 1 * s) == m);
        assert(magnitude == h * (magnitude / h) + magnitude % h);
    }
}

/// A ratio that is no larger than a number is not rounded past it.
pub proof fn law_rounds_at_most(n: nat, d: nat, bound: nat)
    requires
        d > 0,
        bound < INFINITE,
        n <= units_of(bound) * d,
    ensures
        nearest_magnitude(n, d) <= bound,
{
    law_numbers_are_exact(bound);
    law_rounding_keeps_order(n, d, units_of(bound), 1);
}

/// A ratio that is no smaller than a number is not rounded below it.
pub proof fn law_rounds_at_least(n: nat, d: nat, bound: nat)
    requires
        d > 0,
        bound < INFINITE,
        n >= units_of(bound) * d,
    ensures
        nearest_magnitude(n, d) >= bound,
{
    law_numbers_are_exact(bound);
    law_rounding_keeps_order(units_of(bound), 1, n, d);
}

/// What can be written with 53 bits and a power of two is rounded to itself.
pub(crate) proof fn lemma_short_is_exact(t: nat, k: nat)
    requires
        t < 0x20_0000_0000_0000,
        k <= 2045,
    ensures
        nearest_magnitude(t * pow2(k), 1) < INFINITE,
        units_of(nearest_magnitude(t * pow2(k), 1)) == t * pow2(k),
    decreases k,
{
    let h = HIDDEN as nat;
    let s = pow2(k);
    vstd::arithmetic::power2::lemma2_to64();
    vstd::arithmetic::power2::lemma2_to64_rest();
    vstd::arithmetic::power2::lemma_pow2_pos(k);
    if k == 0 {
        assert(t * 1 == t) by (nonlinear_arith);
        assert(spacing(t, 1) == 0);
        assert(nearest_even(t, 1) == t);
        assert((t as nat) % h == if t < h { t as int } else { t - h });
        assert((t as nat) / h <= 1);
    } else if t < h {
        let j = (k - 1) as nat;
        vstd::arithmetic::power2::lemma_pow2_unfold(k);
        assert((2 * t) * pow2(j) == t * (2 * pow2(j))) by (nonlinear_arith);
        lemma_short_is_exact(2 * t, j);
    } else {
        let n = t * s;
        vstd::arithmetic::power2::lemma_pow2_adds(53, k);
        vstd::arithmetic::power2::lemma_pow2_adds(52, k);
        assert(n < 1 * (0x20_0000_0000_0000 * s)) by (nonlinear_arith)
            requires
                n == t * s,
                t < 0x20_0000_0000_0000,
                s > 0,
        ;
        assert(n >= 1 * (0x10_0000_0000_0000 * s)) by (nonlinear_arith)
            requires
                n == t * s,
                t >= 0x10_0000_0000_0000,
        ;
        lemma_spacing_is(n, 1, k);
        vstd::arithmetic::div_mod::lemma_fundamental_div_mod_converse(
            n as int,
            s as int,
            t as int,
            0,
        );
        let magnitude = k * h + t;
        let low = (t - h) as nat;
        assert(magnitude == h * (k + 1) + low) by (nonlinear_arith)
            requires
                magnitude == k * h + t,
                t == h + low,
        ;
        vstd::arithmetic::div_mod::lemma_fundamental_div_mod_converse(
            magnitude as int,
            h as int,
            (k + 1) as int,
            low as int,
        );
    }
}

/// Whole numbers below 2^53 are numbers.
pub proof fn law_whole_numbers_are_exact(n: nat)
    requires
        n < 0x20_0000_0000_0000,
    ensures
        !decimal(n, 1).is_negative(),
        decimal(n, 1).is_finite(),
        decimal(n, 1).units() == n * one_units(),
{
    lemma_short_is_exact(n, 1074);
}

/// Numbers that are not negative are ordered like their bit patterns.
pub proof fn law_order_is_that_of_bits(a: Binary64, b: Binary64)
    requires
        !a.is_negative(),
        !b.is_negative(),
        !a.is_nan(),
        !b.is_nan(),
    ensures
        at_most(a, b) == (a.bits <= b.bits),
        below(a, b) == (a.bits < b.bits),
{
    if a.bits < b.bits {
        lemma_units_increase(a.bits as nat, b.bits as nat);
    } else if b.bits < a.bits {
        lemma_units_increase(b.bits as nat, a.bits as nat);
    }
}

/// A number that is not negative, up to infinity.
pub open spec fn is_amount(a: Binary64) -> bool {
    !a.is_negative() && !a.is_nan()
}

/// A number from 0 to 1.
pub open spec fn is_share(a: Binary64) -> bool {
    is_amount(a) && at_most(a, decimal(1, 1))
}

/// Amounts are rounded from whole numbers in order.
pub proof fn law_whole_numbers_keep_order(m: nat, n: nat)
    requires
        m <= n,
    ensures
        is_amount(decimal(m, 1)),
        is_amount(decimal(n, 1)),
        at_most(decimal(m, 1), decimal(n, 1)),
{
    let one = one_units();
    assert((m * one) * 1 <= (n * one) * 1) by (nonlinear_arith)
        requires
            m <= n,
    ;
    law_rounding_keeps_order(m * one, 1, n * one, 1);
    law_order_is_that_of_bits(decimal(m, 1), decimal(n, 1));
}

/// A larger amount makes no smaller product.
pub proof fn law_product_keeps_order(a: Binary64, b: Binary64, c: Binary64)
    requires
        is_amount(a),
        is_amount(c),
        b.is_finite(),
        c.is_finite(),
        !b.is_negative(),
        at_most(a, b),
    ensures
        is_amount(product(a, c)),
        is_amount(product(b, c)),
        at_most(product(a, c), product(b, c)),
{
    let one = one_units();
    vstd::arithmetic::power2::lemma_pow2_pos(1074);
    assert((a.units() * c.units()) * one <= (b.units() * c.units()) * one) by (nonlinear_arith)
        requires
            a.units() <= b.units(),
    {
        assert(a.units() * c.units() <= b.units() * c.units());
    }
    law_rounding_keeps_order(a.units() * c.units(), one, b.units() * c.units(), one);
    law_order_is_that_of_bits(product(a, c), product(b, c));
}

/// A larger amount makes no smaller quotient.
pub proof fn law_quotient_keeps_order(a: Binary64, b: Binary64, c: Binary64)
    requires
        is_amount(a),
        is_amount(c),
        b.is_finite(),
        c.is_finite(),
        !b.is_negative(),
        c.bits > 0,
        at_most(a, b),
    ensures
        is_amount(quotient(a, c)),
        is_amount(quotient(b, c)),
        at_most(quotient(a, c), quotient(b, c)),
{
    let one = one_units();
    let d = c.units();
    lemma_units_increase(0, c.bits as nat);
    assert((a.units() * one) * d <= (b.units() * one) * d) by (nonlinear_arith)
        requires
            a.units() <= b.units(),
    {
        assert(a.units() * one <= b.units() * one);
    }
    law_rounding_keeps_order(a.units() * one, d, b.units() * one, d);
    law_order_is_that_of_bits(quotient(a, c), quotient(b, c));
}

/// A larger divisor makes no larger quotient.
pub proof fn law_quotient_falls_with_divisor(a: Binary64, smaller: Binary64, larger: Binary64)
    requires
        is_amount(a),
        a.is_finite(),
        is_amount(smaller),
        is_amount(larger),
        larger.is_finite(),
        smaller.bits > 0,
        at_most(smaller, larger),
    ensures
        is_amount(quotient(a, smaller)),
        is_amount(quotient(a, larger)),
        at_most(quotient(a, larger), quotient(a, smaller)),
{
    let n = a.units() * one_units();
    law_order_is_that_of_bits(smaller, larger);
    lemma_units_increase(0, smaller.bits as nat);
    lemma_units_increase(0, larger.bits as nat);
    assert(n * smaller.units() <= n * larger.units()) by (nonlinear_arith)
        requires
            smaller.units() <= larger.units(),
    ;
    law_rounding_keeps_order(n, larger.units(), n, smaller.units());
    law_order_is_that_of_bits(quotient(a, larger), quotient(a, smaller));
}

/// An amount divided by one that is no smaller is a share.
pub proof fn law_quotient_is_share(a: Binary64, b: Binary64)
    requires
        is_amount(a),
        is_amount(b),
        b.is_finite(),
        b.bits > 0,
        at_most(a, b),
    ensures
        is_share(quotient(a, b)),
        quotient(a, b).is_finite(),
{
    let one = decimal(1, 1);
    let n = a.units() * one_units();
    lemma_units_increase(0, b.bits as nat);
    law_whole_numbers_are_exact(1);
    assert(n <= one_units() * b.units()) by (nonlinear_arith)
        requires
            n == a.units() * one_units(),
            a.units() <= b.units(),
    ;
    law_rounds_at_most(n, b.units(), one.bits as nat);
    law_order_is_that_of_bits(quotient(a, b), one);
}

/// A positive number divided by itself is 1.
pub proof fn law_quotient_by_itself(a: Binary64)
    requires
        is_amount(a),
        a.is_finite(),
        a.bits > 0,
    ensures
        quotient(a, a) == decimal(1, 1),
{
    let one = one_units();
    lemma_units_increase(0, a.bits as nat);
    vstd::arithmetic::power2::lemma_pow2_pos(1074);
    assert((a.units() * one) * 1 == (1 * one) * a.units()) by (nonlinear_arith);
    law_equal_ratios_round_alike(a.units() * one, a.units(), 1 * one, 1);
}

/// A share of an amount is no larger than the amount.
pub proof fn law_product_with_share(share: Binary64, whole: Binary64)
    requires
        is_share(share),
        is_amount(whole),
        whole.is_finite(),
    ensures
        is_amount(product(share, whole)),
        product(share, whole).is_finite(),
        at_most(product(share, whole), whole),
{
    let n = share.units() * whole.units();
    vstd::arithmetic::power2::lemma_pow2_pos(1074);
    law_whole_numbers_are_exact(1);
    assert(n <= whole.units() * one_units()) by (nonlinear_arith)
        requires
            n == share.units() * whole.units(),
            share.units() <= one_units(),
    ;
    law_rounds_at_most(n, one_units(), whole.bits as nat);
    law_order_is_that_of_bits(product(share, whole), whole);
}

/// What is left of 1 is a share, and less of it where more is taken.
pub proof fn law_rest_of_one(less: Binary64, more: Binary64)
    requires
        is_share(less),
        is_share(more),
        at_most(less, more),
    ensures
        is_share(difference(decimal(1, 1), less)),
        is_share(difference(decimal(1, 1), more)),
        at_most(difference(decimal(1, 1), more), difference(decimal(1, 1), less)),
{
    let one = decimal(1, 1);
    law_whole_numbers_are_exact(1);
    law_numbers_are_exact(0);
    let rest_less = (one_units() - less.units()) as nat;
    let rest_more = (one_units() - more.units()) as nat;
    assert(difference(one, less).bits == nearest_magnitude(rest_less, 1));
    assert(difference(one, more).bits == nearest_magnitude(rest_more, 1));
    law_rounding_keeps_order(rest_more, 1, rest_less, 1);
    law_rounds_at_most(rest_less, 1, one.bits as nat);
    law_order_is_that_of_bits(difference(one, more), difference(one, less));
    law_order_is_that_of_bits(difference(one, less), one);
    law_order_is_that_of_bits(difference(one, more), one);
}

/// The number nearest to a `u64` is finite, and positive unless the integer is 0.
pub proof fn law_u64_is_finite(n: u64)
    ensures
        is_amount(decimal(n as nat, 1)),
        decimal(n as nat, 1).is_finite(),
        (decimal(n as nat, 1).bits > 0) == (n > 0),
        decimal(n as nat, 1).units() <= pow2(1138),
{
    lemma_short_is_exact(1, 1138);
    vstd::arithmetic::power2::lemma_pow2_adds(64, 1074);
    vstd::arithmetic::power2::lemma2_to64();
    let one = one_units();
    let top = 1 * pow2(1138);
    assert((n * one) * 1 <= top * 1) by (nonlinear_arith)
        requires
            top == 0x1_0000_0000_0000_0000 * one,
            n <= 0x1_0000_0000_0000_0000,
    ;
    law_rounding_keeps_order(n as nat * one, 1, top, 1);
    if decimal(n as nat, 1).bits < nearest_magnitude(top, 1) {
        lemma_units_increase(decimal(n as nat, 1).bits as nat, nearest_magnitude(top, 1));
    }
    law_whole_numbers_are_exact(1);
    vstd::arithmetic::power2::lemma_pow2_pos(1074);
    if n > 0 {
        law_whole_numbers_keep_order(1, n as nat);
        law_order_is_that_of_bits(decimal(1, 1), decimal(n as nat, 1));
    } else {
        law_numbers_are_exact(0);
    }
}

/// Equal ratios are rounded to the same number.
pub proof fn law_equal_ratios_round_alike(n1: nat, d1: nat, n2: nat, d2: nat)
    requires
        d1 > 0,
        d2 > 0,
        n1 * d2 == n2 * d1,
    ensures
        nearest_magnitude(n1, d1) == nearest_magnitude(n2, d2),
{
    law_rounding_keeps_order(n1, d1, n2, d2);
    law_rounding_keeps_order(n2, d2, n1, d1);
}

/// An amount times a factor that is at least 1 is no smaller than the amount.
pub proof fn law_grown_is_not_smaller(a: Binary64, n: nat, d: nat)
    requires
        is_amount(a),
        a.is_finite(),
        0 < d <= n,
        decimal(n, d).is_finite(),
    ensures
        is_amount(product(a, decimal(n, d))),
        at_most(a, product(a, decimal(n, d))),
{
    let one = decimal(1, 1);
    let factor = decimal(n, d);
    let exact = a.units() * factor.units();
    law_whole_numbers_are_exact(1);
    vstd::arithmetic::power2::lemma_pow2_pos(1074);
    assert(n * one_units() >= one_units() * d) by (nonlinear_arith)
        requires
            d <= n,
    ;
    law_rounds_at_least(n * one_units(), d, one.bits as nat);
    if one.bits < factor.bits {
        lemma_units_increase(one.bits as nat, factor.bits as nat);
    }
    assert(exact >= a.units() * one_units()) by (nonlinear_arith)
        requires
            exact == a.units() * factor.units(),
            factor.units() >= one_units(),
    ;
    law_rounds_at_least(exact, one_units(), a.bits as nat);
    law_order_is_that_of_bits(a, product(a, factor));
}

/// The bit pattern of a sum of amounts.
pub(crate) proof fn lemma_sum_of_amounts(a: Binary64, b: Binary64)
    requires
        is_amount(a),
        is_amount(b),
        a.is_finite(),
        b.is_finite(),
    ensures
        is_amount(sum(a, b)),
        sum(a, b).bits == nearest_magnitude(a.units() + b.units(), 1),
{
    law_numbers_are_exact(0);
}

/// Adding an amount never makes a number smaller.
pub proof fn law_sum_is_not_smaller(a: Binary64, b: Binary64)
    requires
        is_amount(a),
        is_amount(b),
        a.is_finite(),
        b.is_finite(),
    ensures
        is_amount(sum(a, b)),
        at_most(a, sum(a, b)),
        at_most(b, sum(a, b)),
{
    lemma_sum_of_amounts(a, b);
    law_rounds_at_least(a.units() + b.units(), 1, a.bits as nat);
    law_rounds_at_least(a.units() + b.units(), 1, b.bits as nat);
    law_order_is_that_of_bits(a, sum(a, b));
    law_order_is_that_of_bits(b, sum(a, b));
}

/// The bit pattern of 1.
pub(crate) proof fn lemma_one_bits()
    ensures
        decimal(1, 1).bits == 1023 * HIDDEN,
{
    let h = HIDDEN as nat;
    let n = 1 * one_units();
    let s = pow2(1022);
    vstd::arithmetic::power2::lemma2_to64_rest();
    vstd::arithmetic::power2::lemma_pow2_pos(1022);
    vstd::arithmetic::power2::lemma_pow2_strictly_increases(1074, 1075);
    vstd::arithmetic::power2::lemma_pow2_adds(52, 1022);
    lemma_spacing_is(n, 1, 1022);
    vstd::arithmetic::div_mod::lemma_fundamental_div_mod_converse(n as int, s as int, h as int, 0);
}

/// A number of 2^53 or more does not feel the addition of less than 1.
pub proof fn law_large_absorbs_fractions(a: Binary64, rest: nat)
    requires
        is_amount(a),
        a.is_finite(),
        a.units() >= 0x20_0000_0000_0000 * one_units(),
        rest < one_units(),
    ensures
        nearest_magnitude(a.units() + rest, 1) == a.bits,
{
    let h = HIDDEN as nat;
    let magnitude = a.bits as nat;
    let e = magnitude / h;
    let m = h + magnitude % h;
    vstd::arithmetic::power2::lemma2_to64_rest();
    vstd::arithmetic::power2::lemma_pow2_pos(1074);
    if magnitude < h {
        assert(a.units() < h);
        assert(false);
    }
    let k = (e - 1) as nat;
    let s = pow2(k);
    vstd::arithmetic::power2::lemma_pow2_pos(k);
    if k < 1075 {
        lemma_pow2_at_most(k, 1074);
        assert(m * s < 0x20_0000_0000_0000 * one_units()) by (nonlinear_arith)
            requires
                m < 0x20_0000_0000_0000,
                0 < s <= one_units(),
        ;
        assert(false);
    }
    vstd::arithmetic::power2::lemma_pow2_unfold(1075);
    lemma_pow2_at_most(1075, k);
    let n = a.units() + rest;
    assert(n == s * m + rest) by (nonlinear_arith)
        requires
            n == m * s + rest,
    ;
    vstd::arithmetic::power2::lemma_pow2_adds(53, k);
    vstd::arithmetic::power2::lemma_pow2_adds(52, k);
    assert(n < 1 * (0x20_0000_0000_0000 * s)) by (nonlinear_arith)
        requires
            n == s * m + rest,
            m < 0x20_0000_0000_0000,
            rest < s,
    ;
    assert(n >= 1 * (0x10_0000_0000_0000 * s)) by (nonlinear_arith)
        requires
            n == s * m + rest,
            m >= 0x10_0000_0000_0000,
            rest >= 0,
    ;
    lemma_spacing_is(n, 1, k);
    vstd::arithmetic::div_mod::lemma_fundamental_div_mod_converse(
        n as int,
        s as int,
        m as int,
        rest as int,
    );
    assert(magnitude == h * e + magnitude % h);
}

} // verus!
