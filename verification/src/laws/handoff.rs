//! Handoffs: how far a step brings a migration, and who serves the files meanwhile.

use crate::binary64::laws::{
    is_amount, is_share, law_equal_ratios_round_alike, law_numbers_are_exact,
    law_order_is_that_of_bits, law_quotient_falls_with_divisor, law_quotient_is_share,
    law_quotient_keeps_order, law_rounding_keeps_order, law_rounds_at_least, law_rounds_at_most,
    law_u64_is_finite, law_whole_numbers_are_exact, law_whole_numbers_keep_order,
    lemma_sum_of_amounts,
};
use crate::binary64::{
    at_most, below, decimal, larger, lemma_units_increase, one_units, quotient, rounded,
    unit_clamped, Binary64,
};
use crate::handoff::{
    advanced, begun, byte_share, cancelled, law_stage_follows_weight, lemma_clamped,
    lemma_transition_seconds, phase, progressed, serves_from_destination, serves_from_source,
    time_share, StorageHandoffState, StorageHandoffView,
};
use crate::time::{law_longer_is_not_fewer_seconds, law_seconds_are_finite, Duration};
use vstd::prelude::*;

verus! {

/// Who serves the files in each state: the source alone before the crossfade and after a cancel,
/// both while migrating, the destination alone while settling, nobody in particular at the end.
pub proof fn law_who_serves(state: StorageHandoffState)
    ensures
        serves_from_source(state) && !serves_from_destination(state) <==> (state
            == StorageHandoffState::Stable || state == StorageHandoffState::Draining || state
            == StorageHandoffState::Cancelled),
        serves_from_source(state) && serves_from_destination(state) <==> state
            == StorageHandoffState::Migrating,
        !serves_from_source(state) && serves_from_destination(state) <==> state
            == StorageHandoffState::Settling,
        !serves_from_source(state) && !serves_from_destination(state) <==> state
            == StorageHandoffState::Complete,
{
}

/// Every state goes by its own name.
pub proof fn law_states_are_named(state: StorageHandoffState)
    ensures
        state.spelled() == "Stable"@ <==> state == StorageHandoffState::Stable,
        state.spelled() == "Draining"@ <==> state == StorageHandoffState::Draining,
        state.spelled() == "Migrating"@ <==> state == StorageHandoffState::Migrating,
        state.spelled() == "Settling"@ <==> state == StorageHandoffState::Settling,
        state.spelled() == "Complete"@ <==> state == StorageHandoffState::Complete,
        state.spelled() == "Cancelled"@ <==> state == StorageHandoffState::Cancelled,
{
    reveal_strlit("Stable");
    reveal_strlit("Draining");
    reveal_strlit("Migrating");
    reveal_strlit("Settling");
    reveal_strlit("Complete");
    reveal_strlit("Cancelled");
    assert("Stable"@[0] == 'S' && "Draining"@[0] == 'D' && "Migrating"@[0] == 'M');
    assert("Settling"@[0] == 'S' && "Complete"@[0] == 'C' && "Cancelled"@[0] == 'C');
    assert("Stable"@.len() == 6 && "Settling"@.len() == 8 && "Complete"@.len() == 8);
    assert("Cancelled"@.len() == 9);
}

/// Service moves from the source to the destination and never back: as the weight of a migration
/// grows, files that resolve on the destination keep resolving there until the migration is
/// complete, and files that no longer resolve on the source never do again. A migration starts on
/// the source and settles on the destination.
pub proof fn law_service_moves_one_way(less: Binary64, more: Binary64)
    requires
        is_share(less),
        is_share(more),
        at_most(less, more),
    ensures
        serves_from_destination(phase(less)) ==> serves_from_destination(phase(more)) || phase(more)
            == StorageHandoffState::Complete,
        !serves_from_source(phase(less)) ==> !serves_from_source(phase(more)),
        below(more, decimal(33, 100)) ==> serves_from_source(phase(more))
            && !serves_from_destination(phase(more)),
        at_most(decimal(66, 100), less) ==> !serves_from_source(phase(less)),
        at_most(decimal(66, 100), less) && below(less, decimal(1, 1)) ==> serves_from_destination(
            phase(less),
        ),
{
    law_stage_follows_weight(less, more);
    lemma_marks();
}

/// The marks of the phases, in order.
proof fn lemma_marks()
    ensures
        is_share(decimal(33, 100)),
        is_share(decimal(66, 100)),
        is_share(decimal(1, 1)),
        at_most(decimal(33, 100), decimal(66, 100)),
        at_most(decimal(66, 100), decimal(1, 1)),
{
    let one = one_units();
    law_whole_numbers_are_exact(1);
    assert((33 * one) * 100 <= (66 * one) * 100);
    assert((66 * one) * 1 <= (1 * one) * 100);
    law_rounding_keeps_order(33 * one, 100, 66 * one, 100);
    law_rounding_keeps_order(66 * one, 100, 1 * one, 1);
    law_order_is_that_of_bits(decimal(33, 100), decimal(66, 100));
    law_order_is_that_of_bits(decimal(66, 100), decimal(1, 1));
    law_order_is_that_of_bits(decimal(33, 100), decimal(1, 1));
    law_order_is_that_of_bits(decimal(1, 1), decimal(1, 1));
}

/// When a migration is in each phase: it drains below 0.33, migrates from there to 0.66, settles
/// from there on, and is complete at 1 and not before.
pub proof fn law_phases(weight: Binary64)
    requires
        is_share(weight),
    ensures
        phase(weight) == StorageHandoffState::Draining <==> below(weight, decimal(33, 100)),
        phase(weight) == StorageHandoffState::Migrating <==> at_most(decimal(33, 100), weight)
            && below(weight, decimal(66, 100)),
        phase(weight) == StorageHandoffState::Settling <==> at_most(decimal(66, 100), weight)
            && weight != decimal(1, 1),
        phase(weight) == StorageHandoffState::Complete <==> weight == decimal(1, 1),
{
    lemma_marks();
    law_order_is_that_of_bits(weight, decimal(1, 1));
    law_order_is_that_of_bits(decimal(1, 1), weight);
    law_order_is_that_of_bits(weight, decimal(33, 100));
    law_order_is_that_of_bits(weight, decimal(66, 100));
    law_order_is_that_of_bits(decimal(33, 100), weight);
    law_order_is_that_of_bits(decimal(66, 100), weight);
    law_order_is_that_of_bits(decimal(33, 100), decimal(66, 100));
    law_order_is_that_of_bits(decimal(66, 100), decimal(1, 1));
}

/// A span of whole seconds is that many seconds.
proof fn lemma_whole_seconds(secs: u64)
    requires
        secs < 0x20_0000_0000_0000,
    ensures
        (Duration { secs, nanos: 0 }).seconds() == decimal(secs as nat, 1),
{
    let one = one_units();
    let a = decimal(secs as nat, 1);
    let part = quotient(decimal(0, 1), decimal(1_000_000_000, 1));
    law_whole_numbers_are_exact(secs as nat);
    law_whole_numbers_are_exact(0);
    law_whole_numbers_are_exact(1_000_000_000);
    law_u64_is_finite(1_000_000_000);
    law_u64_is_finite(0);
    law_numbers_are_exact(0);
    vstd::arithmetic::power2::lemma_pow2_pos(1074);
    assert(((0 * one) * one) * 1 == 0 * (1_000_000_000 * one)) by (nonlinear_arith);
    law_equal_ratios_round_alike((0 * one) * one, 1_000_000_000 * one, 0, 1);
    assert(part.bits == 0);
    lemma_sum_of_amounts(a, part);
    law_numbers_are_exact(a.bits as nat);
}

/// After `s` of `t` whole seconds a migration that has just begun has the weight `s / t`, rounded
/// once.
pub proof fn law_first_step_is_the_fraction_of_time(s: u64, t: u64)
    requires
        0 < t < 0x20_0000_0000_0000,
        s <= t,
    ensures
        advanced(
            decimal(0, 1),
            time_share(Duration { secs: s, nanos: 0 }, Duration { secs: t, nanos: 0 }),
        ) == decimal(s as nat, t as nat),
{
    let one = one_units();
    let delta = Duration { secs: s, nanos: 0 };
    let transition = Duration { secs: t, nanos: 0 };
    let a = decimal(s as nat, 1);
    let b = decimal(t as nat, 1);
    lemma_whole_seconds(s);
    lemma_whole_seconds(t);
    law_whole_numbers_are_exact(s as nat);
    law_whole_numbers_are_exact(t as nat);
    law_whole_numbers_are_exact(1);
    law_u64_is_finite(t);
    law_numbers_are_exact(0);
    vstd::arithmetic::power2::lemma_pow2_pos(1074);
    // The transition takes longer than a millisecond.
    assert((1 * one) * 1 <= (1 * one) * 1000);
    law_rounding_keeps_order(1 * one, 1000, 1 * one, 1);
    law_whole_numbers_keep_order(1, t as nat);
    law_order_is_that_of_bits(decimal(1, 1000), decimal(1, 1));
    law_order_is_that_of_bits(decimal(1, 1), b);
    law_order_is_that_of_bits(decimal(1, 1000), b);
    law_order_is_that_of_bits(b, decimal(1, 1000));
    assert(larger(b, decimal(1, 1000)).bits == b.bits);
    law_whole_numbers_keep_order(s as nat, t as nat);
    law_quotient_is_share(a, b);
    lemma_clamped(quotient(a, b));
    let share = quotient(a, b);
    law_order_is_that_of_bits(decimal(1, 1), share);
    law_order_is_that_of_bits(share, decimal(1, 1));
    assert(time_share(delta, transition).bits == share.bits);
    assert(((s * one) * one) * t == (s * one) * (t * one)) by (nonlinear_arith);
    law_equal_ratios_round_alike((s as nat * one) * one, t as nat * one, s as nat * one, t as nat);
    lemma_sum_of_amounts(decimal(0, 1), share);
    law_numbers_are_exact(share.bits as nat);
}

/// Steps add up: the weight after a step is the sum of the weight before and of the share that
/// passes, rounded once, and never more than 1.
pub proof fn law_steps_add_up(weight: Binary64, share: Binary64)
    requires
        is_share(weight),
        is_share(share),
    ensures
        weight.units() + share.units() <= one_units() ==> advanced(weight, share) == rounded(
            false,
            weight.units() + share.units(),
            1,
        ),
        weight.units() + share.units() >= one_units() ==> advanced(weight, share) == decimal(1, 1),
{
    let one = decimal(1, 1);
    law_whole_numbers_are_exact(1);
    lemma_sum_of_amounts(weight, share);
    let total = weight.units() + share.units();
    if total <= one_units() {
        law_rounds_at_most(total, 1, one.bits as nat);
    }
    if total >= one_units() {
        law_rounds_at_least(total, 1, one.bits as nat);
    }
    law_order_is_that_of_bits(crate::binary64::sum(weight, share), one);
}

/// No time, no progress.
pub proof fn law_no_time_no_progress(weight: Binary64, transition: Duration)
    requires
        is_share(weight),
        transition.valid(),
    ensures
        advanced(weight, time_share(Duration { secs: 0, nanos: 0 }, transition)) == weight,
{
    let one = one_units();
    let delta = Duration { secs: 0, nanos: 0 };
    let total = larger(transition.seconds(), decimal(1, 1000));
    lemma_whole_seconds(0);
    lemma_transition_seconds(transition);
    lemma_units_increase(0, total.bits as nat);
    law_whole_numbers_are_exact(0);
    law_whole_numbers_are_exact(1);
    law_numbers_are_exact(0);
    assert(((0 * one) * one) * 1 == 0 * total.units()) by (nonlinear_arith);
    law_equal_ratios_round_alike((0 * one) * one, total.units(), 0, 1);
    let share = quotient(decimal(0, 1), total);
    assert(share.bits == 0);
    lemma_clamped(share);
    law_order_is_that_of_bits(decimal(1, 1), share);
    assert(time_share(delta, transition).bits == 0);
    lemma_sum_of_amounts(weight, time_share(delta, transition));
    law_numbers_are_exact(weight.bits as nat);
    law_order_is_that_of_bits(weight, decimal(1, 1));
}

/// A longer step is no smaller share of a transition, and a step is no larger share of a longer
/// transition.
pub proof fn law_shares_follow_the_time(
    shorter: Duration,
    longer: Duration,
    quicker: Duration,
    slower: Duration,
)
    requires
        shorter.valid(),
        longer.valid(),
        quicker.valid(),
        slower.valid(),
        shorter.total_nanos() <= longer.total_nanos(),
        quicker.total_nanos() <= slower.total_nanos(),
    ensures
        at_most(time_share(shorter, quicker), time_share(longer, quicker)),
        at_most(time_share(shorter, slower), time_share(shorter, quicker)),
{
    let one = decimal(1, 1);
    let q = larger(quicker.seconds(), decimal(1, 1000));
    let s = larger(slower.seconds(), decimal(1, 1000));
    lemma_transition_seconds(quicker);
    lemma_transition_seconds(slower);
    law_seconds_are_finite(shorter);
    law_seconds_are_finite(longer);
    law_seconds_are_finite(quicker);
    law_seconds_are_finite(slower);
    law_longer_is_not_fewer_seconds(shorter, longer);
    law_longer_is_not_fewer_seconds(quicker, slower);
    law_whole_numbers_are_exact(1);
    assert(at_most(q, s));
    law_quotient_keeps_order(shorter.seconds(), longer.seconds(), q);
    law_quotient_falls_with_divisor(shorter.seconds(), q, s);
    lemma_clamped_keeps_order(quotient(shorter.seconds(), q), quotient(longer.seconds(), q));
    lemma_clamped_keeps_order(quotient(shorter.seconds(), s), quotient(shorter.seconds(), q));
}

/// Bringing amounts into the range from 0 to 1 keeps their order.
proof fn lemma_clamped_keeps_order(a: Binary64, b: Binary64)
    requires
        is_amount(a),
        is_amount(b),
        at_most(a, b),
    ensures
        at_most(unit_clamped(a), unit_clamped(b)),
{
    let one = decimal(1, 1);
    law_whole_numbers_are_exact(1);
    lemma_clamped(a);
    lemma_clamped(b);
    law_order_is_that_of_bits(a, b);
    law_order_is_that_of_bits(one, a);
    law_order_is_that_of_bits(one, b);
    law_order_is_that_of_bits(a, one);
    law_order_is_that_of_bits(unit_clamped(a), unit_clamped(b));
}

/// Byte progress is the fraction of the bytes that has been migrated, rounded once: nothing where
/// nothing has been migrated, and all where everything has.
pub proof fn law_byte_progress_is_the_fraction(migrated: u64, total: u64)
    requires
        migrated <= total < 0x20_0000_0000_0000,
        total > 0,
    ensures
        byte_share(migrated, total) == decimal(migrated as nat, total as nat),
        byte_share(0, total) == decimal(0, 1),
        byte_share(total, total) == decimal(1, 1),
{
    lemma_byte_fraction(migrated, total);
    lemma_byte_fraction(0, total);
    lemma_byte_fraction(total, total);
    let one = one_units();
    assert((0 * one) * 1 == (0 * one) * total) by (nonlinear_arith);
    law_equal_ratios_round_alike(0 * one, total as nat, 0 * one, 1);
    assert((total * one) * 1 == (1 * one) * total) by (nonlinear_arith);
    law_equal_ratios_round_alike(total as nat * one, total as nat, 1 * one, 1);
}

/// The fraction of some bytes.
proof fn lemma_byte_fraction(migrated: u64, total: u64)
    requires
        migrated <= total < 0x20_0000_0000_0000,
        total > 0,
    ensures
        byte_share(migrated, total) == decimal(migrated as nat, total as nat),
{
    let one = one_units();
    let a = decimal(migrated as nat, 1);
    let b = decimal(total as nat, 1);
    law_whole_numbers_are_exact(migrated as nat);
    law_whole_numbers_are_exact(total as nat);
    law_whole_numbers_are_exact(1);
    law_u64_is_finite(total);
    vstd::arithmetic::power2::lemma_pow2_pos(1074);
    law_whole_numbers_keep_order(migrated as nat, total as nat);
    law_quotient_is_share(a, b);
    lemma_clamped(quotient(a, b));
    law_order_is_that_of_bits(decimal(1, 1), quotient(a, b));
    law_order_is_that_of_bits(quotient(a, b), decimal(1, 1));
    assert(((migrated * one) * one) * total == (migrated * one) * (total * one))
        by (nonlinear_arith);
    assert(total * one > 0) by (nonlinear_arith)
        requires
            total > 0,
            one > 0,
    ;
    law_equal_ratios_round_alike(
        (migrated as nat * one) * one,
        total as nat * one,
        migrated as nat * one,
        total as nat,
    );
}

/// Only a handoff that has not begun can begin; it then drains, and is otherwise as it was. So a
/// handoff begins once, and not after it was cancelled.
pub proof fn law_beginning(before: StorageHandoffView)
    ensures
        begun(before) is Some <==> before.state == StorageHandoffState::Stable,
        begun(before) matches Some(after) ==> {
            &&& after.state == StorageHandoffState::Draining
            &&& after.progress_weight == decimal(0, 1)
            &&& begun(after) is None
            &&& after.migrated_bytes == before.migrated_bytes
            &&& same_migration(before, after)
        },
        cancelled(before) matches Some(after) ==> begun(after) is None,
{
}

/// Whether two handoffs are of the same migration.
pub open spec fn same_migration(a: StorageHandoffView, b: StorageHandoffView) -> bool {
    &&& a.from_volume == b.from_volume
    &&& a.to_volume == b.to_volume
    &&& a.total_bytes == b.total_bytes
    &&& a.transition_duration == b.transition_duration
    &&& a.entries == b.entries
}

/// Any handoff but a complete one can be cancelled. That forgets all progress: it makes no
/// difference how far the handoff was, and the same handoff cancelled twice is cancelled once. The
/// files are served by the source again.
pub proof fn law_cancelling(
    before: StorageHandoffView,
    delta: Duration,
    additional: u64,
)
    ensures
        cancelled(before) is None <==> before.state == StorageHandoffState::Complete,
        cancelled(before) matches Some(after) ==> {
            &&& after.state == StorageHandoffState::Cancelled
            &&& after.migrated_bytes == 0
            &&& after.progress_weight == decimal(0, 1)
            &&& same_migration(before, after)
            &&& cancelled(after) == Some(after)
            &&& serves_from_source(after.state)
            &&& !serves_from_destination(after.state)
        },
        cancelled(before) is Some && cancelled(progressed(before, delta, additional)) is Some
            ==> cancelled(progressed(before, delta, additional)) == cancelled(before),
{
}

/// A step adds its bytes, up to the largest number there is, and brings the weight forward by its
/// share of the transition; the state is the phase of the new weight, whatever the state was. The
/// bytes of two steps add up, in either order, and bytes play no part in the weight, nor time in
/// the bytes.
pub proof fn law_a_step(
    before: StorageHandoffView,
    state: StorageHandoffState,
    first: Duration,
    second: Duration,
    few: u64,
    more: u64,
)
    ensures
        ({
            let after = progressed(before, first, few);
            let twice = progressed(after, second, more);
            &&& same_migration(before, after)
            &&& after.progress_weight == advanced(
                before.progress_weight,
                time_share(first, before.transition_duration),
            )
            &&& after.state == phase(after.progress_weight)
            &&& before.migrated_bytes + few <= u64::MAX ==> after.migrated_bytes
                == before.migrated_bytes + few
            &&& before.migrated_bytes + few >= u64::MAX ==> after.migrated_bytes == u64::MAX
            &&& progressed(StorageHandoffView { state, ..before }, first, few) == after
            &&& before.migrated_bytes + few + more <= u64::MAX ==> twice.migrated_bytes
                == before.migrated_bytes + few + more
            &&& progressed(before, first, more).progress_weight == after.progress_weight
            &&& progressed(before, second, few).migrated_bytes == after.migrated_bytes
        }),
{
}

} // verus!
