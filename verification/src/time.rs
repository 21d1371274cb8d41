//! Spans of time and points in time.

use crate::binary64::laws::{
    is_amount, law_equal_ratios_round_alike, law_large_absorbs_fractions, law_numbers_are_exact,
    law_order_is_that_of_bits, law_quotient_keeps_order, law_rounding_keeps_order,
    law_rounds_at_most, law_sum_is_not_smaller, law_u64_is_finite, law_whole_numbers_are_exact,
    law_whole_numbers_keep_order, lemma_one_bits, lemma_short_is_exact, lemma_sum_of_amounts,
};
use crate::binary64::{
    at_most, decimal, lemma_pow2_at_most, lemma_units_increase, one_units, quotient, sum, units_of,
    Binary64, HIDDEN,
};
use vstd::arithmetic::power2::pow2;
use vstd::prelude::*;

verus! {

/// The first second that the calendar covers, counted from 1970.
pub const FIRST_SECOND: i64 = -8_334_601_228_800;

/// The last second that the calendar covers, counted from 1970.
pub const LAST_SECOND: i64 = 8_210_266_876_799;

/// Nanoseconds in a second.
pub const NANOS_PER_SEC: u32 = 1_000_000_000;

/// A span of time: whole seconds and nanoseconds.
#[derive(Clone, Copy, Debug, PartialEq, Eq, Structural)]
pub struct Duration {
    pub secs: u64,
    pub nanos: u32,
}

impl Duration {
    /// Whether the nanoseconds make up less than a second.
    pub open spec fn valid(self) -> bool {
        self.nanos < NANOS_PER_SEC
    }

    /// The length in nanoseconds.
    pub open spec fn total_nanos(self) -> int {
        self.secs * 1_000_000_000 + self.nanos
    }

    /// The length in seconds.
    pub open spec fn seconds(self) -> Binary64 {
        sum(
            decimal(self.secs as nat, 1),
            quotient(decimal(self.nanos as nat, 1), decimal(NANOS_PER_SEC as nat, 1)),
        )
    }

    /// A span of whole seconds.
    pub fn from_secs(secs: u64) -> (r: Duration)
        ensures
            r == (Duration { secs, nanos: 0 }),
    {
        Duration { secs, nanos: 0 }
    }

    /// The length in seconds.
    pub fn as_seconds(self) -> (r: Binary64)
        ensures
            r == self.seconds(),
    {
        let nanos = Binary64::from_u64(self.nanos as u64).over(
            Binary64::from_u64(NANOS_PER_SEC as u64),
        );
        Binary64::from_u64(self.secs).plus(nanos)
    }

    /// Whether this span is shorter than another.
    pub fn shorter_than(self, other: Duration) -> (r: bool)
        ensures
            r == (self.total_nanos() < other.total_nanos()),
    {
        let a: u128 = self.secs as u128 * 1_000_000_000 + self.nanos as u128;
        let b: u128 = other.secs as u128 * 1_000_000_000 + other.nanos as u128;
        a < b
    }
}

/// A point in time in UTC: seconds since 1970 and nanoseconds within the second.
#[derive(Clone, Copy, Debug, PartialEq, Eq, Structural)]
pub struct Timestamp {
    pub secs: i64,
    pub nanos: u32,
}

impl Timestamp {
    /// Whether the calendar covers the point.
    pub open spec fn valid(self) -> bool {
        FIRST_SECOND <= self.secs <= LAST_SECOND && self.nanos < NANOS_PER_SEC
    }

    /// Nanoseconds since 1970.
    pub open spec fn total_nanos(self) -> int {
        self.secs * 1_000_000_000 + self.nanos
    }

    /// Whether the calendar covers the point.
    pub fn is_valid(self) -> (r: bool)
        ensures
            r == self.valid(),
    {
        FIRST_SECOND <= self.secs && self.secs <= LAST_SECOND && self.nanos < NANOS_PER_SEC
    }
}

/// The current time, from `chrono::Utc::now`. It is a second of the calendar, not before 1970,
/// with less than a second of nanoseconds: chrono builds it from the time since 1970. Which one
/// it is depends on the clock.
#[verifier::external_body]
pub(crate) fn utc_now() -> (r: Timestamp)
    ensures
        r.valid(),
        r.secs >= 0,
{
    let now = chrono::Utc::now();
    Timestamp { secs: now.timestamp(), nanos: now.timestamp_subsec_nanos() }
}

/// The time from one point to a later one, from `chrono::DateTime::signed_duration_since`; there
/// is none where the second point is the later one. Both points are without leap seconds, so the
/// result is their plain difference.
#[verifier::external_body]
pub(crate) fn elapsed(later: Timestamp, earlier: Timestamp) -> (r: Option<Duration>)
    requires
        later.valid(),
        earlier.valid(),
    ensures
        match r {
            Some(d) => d.nanos < NANOS_PER_SEC && d.total_nanos() == later.total_nanos()
                - earlier.total_nanos(),
            None => later.total_nanos() < earlier.total_nanos(),
        },
{
    let a = chrono::DateTime::from_timestamp(later.secs, later.nanos)?;
    let b = chrono::DateTime::from_timestamp(earlier.secs, earlier.nanos)?;
    let d = a.signed_duration_since(b).to_std().ok()?;
    Some(Duration { secs: d.as_secs(), nanos: d.subsec_nanos() })
}

/// The part of a second that some nanoseconds are.
spec fn part_of_second(nanos: u32) -> Binary64 {
    quotient(decimal(nanos as nat, 1), decimal(NANOS_PER_SEC as nat, 1))
}

/// A part of a second is less than 1.
proof fn lemma_part_of_second(nanos: u32)
    requires
        nanos < NANOS_PER_SEC,
    ensures
        is_amount(part_of_second(nanos)),
        part_of_second(nanos).is_finite(),
        part_of_second(nanos).units() < one_units(),
{
    let h = HIDDEN as nat;
    let one = one_units();
    let whole = decimal(NANOS_PER_SEC as nat, 1);
    law_whole_numbers_are_exact(1);
    law_whole_numbers_are_exact(nanos as nat);
    law_whole_numbers_are_exact(NANOS_PER_SEC as nat);
    lemma_one_bits();
    vstd::arithmetic::power2::lemma_pow2_pos(1074);
    law_u64_is_finite(NANOS_PER_SEC as u64);
    let bound = (1023 * h - 1) as nat;
    let low = (h - 1) as nat;
    let step = pow2(1021);
    assert(bound == h * 1022 + low);
    vstd::arithmetic::div_mod::lemma_fundamental_div_mod_converse(
        bound as int,
        h as int,
        1022,
        low as int,
    );
    vstd::arithmetic::power2::lemma2_to64_rest();
    vstd::arithmetic::power2::lemma_pow2_adds(53, 1021);
    assert(units_of(bound) == (h + low) * step);
    let n = (nanos as nat * one) * one;
    let d = 1_000_000_000 * one;
    assert(n <= units_of(bound) * d) by (nonlinear_arith)
        requires
            n == (nanos as nat * one) * one,
            d == 1_000_000_000 * one,
            units_of(bound) == (h + low) * step,
            h + low == 0x1f_ffff_ffff_ffff,
            one == 0x20_0000_0000_0000 * step,
            nanos <= 999_999_999,
    {
        assert(nanos * one <= 999_999_999 * one);
        assert((nanos * one) * one <= (999_999_999 * one) * one);
        assert(units_of(bound) * d == (0x1f_ffff_ffff_ffff * step) * (1_000_000_000 * one));
        assert((0x1f_ffff_ffff_ffff * step) * (1_000_000_000 * one) == 0x1f_ffff_ffff_ffff
            * 1_000_000_000 * (step * one));
        assert((999_999_999 * one) * one == 999_999_999 * 0x20_0000_0000_0000 * (step * one));
        assert(step * one >= 0);
    }
    law_rounds_at_most(n, d, bound);
    lemma_units_increase(bound, (1023 * h) as nat);
    if (part_of_second(nanos).bits as nat) < bound {
        lemma_units_increase(part_of_second(nanos).bits as nat, bound);
    }
}

/// A length in seconds is a finite amount.
pub proof fn law_seconds_are_finite(d: Duration)
    requires
        d.valid(),
    ensures
        is_amount(d.seconds()),
        d.seconds().is_finite(),
{
    let a = decimal(d.secs as nat, 1);
    let b = part_of_second(d.nanos);
    law_u64_is_finite(d.secs);
    lemma_part_of_second(d.nanos);
    lemma_sum_of_amounts(a, b);
    lemma_short_is_exact(1, 1139);
    vstd::arithmetic::power2::lemma_pow2_unfold(1139);
    lemma_pow2_at_most(1074, 1138);
    law_rounding_keeps_order(a.units() + b.units(), 1, 1 * pow2(1139), 1);
}

/// A longer span is not one of fewer seconds.
pub proof fn law_longer_is_not_fewer_seconds(shorter: Duration, longer: Duration)
    requires
        shorter.valid(),
        longer.valid(),
        shorter.total_nanos() <= longer.total_nanos(),
    ensures
        at_most(shorter.seconds(), longer.seconds()),
{
    let one = one_units();
    let a = decimal(shorter.secs as nat, 1);
    let b = decimal(longer.secs as nat, 1);
    let fa = part_of_second(shorter.nanos);
    let fb = part_of_second(longer.nanos);
    law_u64_is_finite(shorter.secs);
    law_u64_is_finite(longer.secs);
    lemma_part_of_second(shorter.nanos);
    lemma_part_of_second(longer.nanos);
    lemma_sum_of_amounts(a, fa);
    lemma_sum_of_amounts(b, fb);
    law_seconds_are_finite(shorter);
    law_seconds_are_finite(longer);
    law_order_is_that_of_bits(shorter.seconds(), longer.seconds());
    if shorter.secs == longer.secs {
        law_whole_numbers_keep_order(shorter.nanos as nat, longer.nanos as nat);
        law_whole_numbers_are_exact(longer.nanos as nat);
        law_whole_numbers_are_exact(NANOS_PER_SEC as nat);
        law_u64_is_finite(NANOS_PER_SEC as u64);
        law_quotient_keeps_order(
            decimal(shorter.nanos as nat, 1),
            decimal(longer.nanos as nat, 1),
            decimal(NANOS_PER_SEC as nat, 1),
        );
        assert(fa.units() <= fb.units());
        law_rounding_keeps_order(a.units() + fa.units(), 1, b.units() + fb.units(), 1);
    } else {
        law_sum_is_not_smaller(b, fb);
        law_order_is_that_of_bits(b, longer.seconds());
        if shorter.secs < 0x20_0000_0000_0000 {
            law_whole_numbers_are_exact(shorter.secs as nat);
            let next = (shorter.secs + 1) as nat;
            assert(next * one == shorter.secs * one + one) by (nonlinear_arith)
                requires
                    next == shorter.secs + 1,
            ;
            law_rounding_keeps_order(a.units() + fa.units(), 1, next * one, 1);
            law_whole_numbers_keep_order(next, longer.secs as nat);
            law_order_is_that_of_bits(decimal(next, 1), b);
        } else {
            law_whole_numbers_keep_order(shorter.secs as nat, longer.secs as nat);
            law_order_is_that_of_bits(a, b);
            lemma_short_is_exact(0x10_0000_0000_0000, 1075);
            vstd::arithmetic::power2::lemma_pow2_unfold(1075);
            assert(0x10_0000_0000_0000 * pow2(1075) == 0x20_0000_0000_0000 * one);
            law_whole_numbers_keep_order(0x20_0000_0000_0000, shorter.secs as nat);
            law_order_is_that_of_bits(decimal(0x20_0000_0000_0000, 1), a);
            if decimal(0x20_0000_0000_0000, 1).bits < a.bits {
                lemma_units_increase(
                    decimal(0x20_0000_0000_0000, 1).bits as nat,
                    a.bits as nat,
                );
            }
            law_large_absorbs_fractions(a, fa.units());
        }
    }
}

/// A span of a millisecond is the number nearest to a thousandth of a second.
pub proof fn law_millisecond()
    ensures
        (Duration { secs: 0, nanos: 1_000_000 }).seconds() == decimal(1, 1000),
{
    let d = Duration { secs: 0, nanos: 1_000_000 };
    let one = one_units();
    let part = part_of_second(1_000_000);
    law_whole_numbers_are_exact(0);
    law_whole_numbers_are_exact(1_000_000);
    law_whole_numbers_are_exact(NANOS_PER_SEC as nat);
    law_u64_is_finite(1_000_000);
    law_u64_is_finite(NANOS_PER_SEC as u64);
    law_u64_is_finite(0);
    lemma_part_of_second(1_000_000);
    vstd::arithmetic::power2::lemma_pow2_pos(1074);
    assert(((1_000_000 * one) * one) * 1000 == (1 * one) * (1_000_000_000 * one))
        by (nonlinear_arith);
    law_equal_ratios_round_alike((1_000_000 * one) * one, 1_000_000_000 * one, 1 * one, 1000);
    lemma_sum_of_amounts(decimal(0, 1), part);
    law_numbers_are_exact(part.bits as nat);
}

} // verus!
