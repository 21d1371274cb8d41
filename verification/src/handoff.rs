//! Storage handoff: crossfade migration between volumes.
//!
//! When storage fills, migration does not switch at once: it crossfades.
//!
//! ```text
//! Stable -> Draining (source draining) -> Migrating (both active)
//!   -> Settling (destination absorbing) -> Complete
//! ```

use crate::binary64::laws::{
    is_amount, is_share, law_numbers_are_exact, law_order_is_that_of_bits, law_quotient_by_itself,
    law_quotient_keeps_order, law_rounding_keeps_order, law_rounds_at_least,
    law_sum_is_not_smaller, law_u64_is_finite, law_whole_numbers_are_exact,
    law_whole_numbers_keep_order,
};
use crate::binary64::{
    at_most, below, decimal, larger, lemma_pow2_at_most, one_units, quotient, smaller, sum,
    unit_clamped, Binary64,
};
use crate::internal::sd_core::Id;
use crate::time::{
    law_longer_is_not_fewer_seconds, law_millisecond, law_seconds_are_finite, Duration,
};
use vstd::prelude::*;

verus! {

/// State of a storage migration handoff.
#[derive(Debug, Clone, Copy, PartialEq, Eq, Structural)]
pub enum StorageHandoffState {
    /// No migration in progress.
    Stable,
    /// Source volume is being drained (files marked for migration).
    Draining,
    /// Both volumes active; migration is mid-way.
    Migrating,
    /// Destination is absorbing final files.
    Settling,
    /// Migration complete.
    Complete,
    /// Migration was cancelled: rolled back to source.
    Cancelled,
}

impl StorageHandoffState {
    /// The name of the state.
    pub open spec fn spelled(self) -> Seq<char> {
        match self {
            StorageHandoffState::Stable => "Stable"@,
            StorageHandoffState::Draining => "Draining"@,
            StorageHandoffState::Migrating => "Migrating"@,
            StorageHandoffState::Settling => "Settling"@,
            StorageHandoffState::Complete => "Complete"@,
            StorageHandoffState::Cancelled => "Cancelled"@,
        }
    }

    /// How far a running migration is: 1 when draining to 4 when complete.
    pub open spec fn stage(self) -> int {
        match self {
            StorageHandoffState::Stable => 0,
            StorageHandoffState::Draining => 1,
            StorageHandoffState::Migrating => 2,
            StorageHandoffState::Settling => 3,
            StorageHandoffState::Complete => 4,
            StorageHandoffState::Cancelled => 0,
        }
    }

    /// The name of the state.
    pub fn name(&self) -> (r: &'static str)
        ensures
            r@ == self.spelled(),
    {
        match self {
            StorageHandoffState::Stable => "Stable",
            StorageHandoffState::Draining => "Draining",
            StorageHandoffState::Migrating => "Migrating",
            StorageHandoffState::Settling => "Settling",
            StorageHandoffState::Complete => "Complete",
            StorageHandoffState::Cancelled => "Cancelled",
        }
    }
}

/// The share of a transition that passes in `delta`, from 0 to 1. A transition takes at least a
/// millisecond.
pub open spec fn time_share(delta: Duration, transition: Duration) -> Binary64 {
    unit_clamped(quotient(delta.seconds(), larger(transition.seconds(), decimal(1, 1000))))
}

/// The weight after a share of the transition has passed.
pub open spec fn advanced(weight: Binary64, share: Binary64) -> Binary64 {
    smaller(sum(weight, share), decimal(1, 1))
}

/// The state of a running migration: draining for the first third of its weight, then migrating,
/// then settling, and complete at 1.
pub open spec fn phase(weight: Binary64) -> StorageHandoffState {
    if below(weight, decimal(33, 100)) {
        StorageHandoffState::Draining
    } else if below(weight, decimal(66, 100)) {
        StorageHandoffState::Migrating
    } else if below(weight, decimal(1, 1)) {
        StorageHandoffState::Settling
    } else {
        StorageHandoffState::Complete
    }
}

/// The share of the bytes that has been migrated, from 0 to 1; all of nothing.
pub open spec fn byte_share(migrated: u64, total: u64) -> Binary64 {
    if total == 0 {
        decimal(1, 1)
    } else {
        unit_clamped(quotient(decimal(migrated as nat, 1), decimal(total as nat, 1)))
    }
}

/// Whether files still resolve to the source volume: also once a migration was cancelled, which
/// rolls it back to the source.
pub open spec fn serves_from_source(state: StorageHandoffState) -> bool {
    state == StorageHandoffState::Stable || state == StorageHandoffState::Draining || state
        == StorageHandoffState::Migrating || state == StorageHandoffState::Cancelled
}

/// Whether files also resolve on the destination volume.
pub open spec fn serves_from_destination(state: StorageHandoffState) -> bool {
    state == StorageHandoffState::Migrating || state == StorageHandoffState::Settling
}

/// A crossfade handoff between two storage volumes.
#[derive(Debug, Clone)]
pub struct StorageHandoff {
    pub from_volume: Id,
    pub to_volume: Id,
    pub state: StorageHandoffState,
    pub total_bytes: u64,
    pub migrated_bytes: u64,
    pub transition_duration: Duration,
    /// Which files/folders were involved.
    pub entries: Vec<Id>,
    /// Phase tracking, from 0 to 1.
    progress_weight: Binary64,
}

/// What a handoff holds.
#[verifier::ext_equal]
pub struct StorageHandoffView {
    pub from_volume: Id,
    pub to_volume: Id,
    pub state: StorageHandoffState,
    pub total_bytes: u64,
    pub migrated_bytes: u64,
    pub transition_duration: Duration,
    pub entries: Seq<Id>,
    pub progress_weight: Binary64,
}

impl View for StorageHandoff {
    type V = StorageHandoffView;

    closed spec fn view(&self) -> StorageHandoffView {
        StorageHandoffView {
            from_volume: self.from_volume,
            to_volume: self.to_volume,
            state: self.state,
            total_bytes: self.total_bytes,
            migrated_bytes: self.migrated_bytes,
            transition_duration: self.transition_duration,
            entries: self.entries@,
            progress_weight: self.progress_weight,
        }
    }
}

/// A handoff is viewed as its fields say.
proof fn law_view_shows_the_fields(handoff: StorageHandoff)
    ensures
        handoff@.from_volume == handoff.from_volume,
        handoff@.to_volume == handoff.to_volume,
        handoff@.state == handoff.state,
        handoff@.total_bytes == handoff.total_bytes,
        handoff@.migrated_bytes == handoff.migrated_bytes,
        handoff@.transition_duration == handoff.transition_duration,
        handoff@.entries == handoff.entries@,
{
}

/// A migration that has not begun.
pub open spec fn fresh(
    from_volume: Id,
    to_volume: Id,
    total_bytes: u64,
    transition_duration: Duration,
) -> StorageHandoffView {
    StorageHandoffView {
        from_volume,
        to_volume,
        state: StorageHandoffState::Stable,
        total_bytes,
        migrated_bytes: 0,
        transition_duration,
        entries: Seq::empty(),
        progress_weight: decimal(0, 1),
    }
}

/// A handoff after it was asked to begin; none where it cannot.
pub open spec fn begun(before: StorageHandoffView) -> Option<StorageHandoffView> {
    match before.state {
        StorageHandoffState::Stable => Some(
            StorageHandoffView {
                state: StorageHandoffState::Draining,
                progress_weight: decimal(0, 1),
                ..before
            },
        ),
        _ => None,
    }
}

/// A handoff after a step.
pub open spec fn progressed(
    before: StorageHandoffView,
    delta: Duration,
    additional: u64,
) -> StorageHandoffView {
    let weight = advanced(
        before.progress_weight,
        time_share(delta, before.transition_duration),
    );
    StorageHandoffView {
        state: phase(weight),
        migrated_bytes: if before.migrated_bytes + additional <= u64::MAX {
            (before.migrated_bytes + additional) as u64
        } else {
            u64::MAX
        },
        progress_weight: weight,
        ..before
    }
}

/// A handoff after it was asked to cancel; none where it cannot.
pub open spec fn cancelled(before: StorageHandoffView) -> Option<StorageHandoffView> {
    match before.state {
        StorageHandoffState::Complete => None,
        _ => Some(
            StorageHandoffView {
                state: StorageHandoffState::Cancelled,
                migrated_bytes: 0,
                progress_weight: decimal(0, 1),
                ..before
            },
        ),
    }
}

impl StorageHandoff {
    /// The weight is from 0 to 1, and the state of a running migration is the phase of its weight.
    pub open spec fn wf(&self) -> bool {
        &&& is_share(self@.progress_weight)
        &&& self@.transition_duration.valid()
        &&& match self@.state {
            StorageHandoffState::Stable | StorageHandoffState::Cancelled => self@.progress_weight
                == decimal(0, 1),
            running => running == phase(self@.progress_weight),
        }
    }

    pub fn new(
        from_volume: Id,
        to_volume: Id,
        total_bytes: u64,
        transition_duration: Duration,
    ) -> (r: StorageHandoff)
        ensures
            r@ == fresh(from_volume, to_volume, total_bytes, transition_duration),
            transition_duration.valid() ==> r.wf(),
    {
        proof {
            lemma_no_weight();
        }
        StorageHandoff {
            from_volume,
            to_volume,
            state: StorageHandoffState::Stable,
            total_bytes,
            migrated_bytes: 0,
            transition_duration,
            entries: Vec::new(),
            progress_weight: Binary64::from_u64(0),
        }
    }

    /// Begin the handoff.
    pub fn begin(&mut self) -> (r: Result<(), String>)
        ensures
            old(self).wf() ==> final(self).wf(),
            begun(old(self)@) == if r is Ok {
                Some(final(self)@)
            } else {
                None
            },
            match r {
                Ok(_) => old(self)@.state == StorageHandoffState::Stable && final(self)@ == (
                StorageHandoffView {
                    state: StorageHandoffState::Draining,
                    progress_weight: decimal(0, 1),
                    ..old(self)@
                }),
                Err(text) => old(self)@.state != StorageHandoffState::Stable && *final(self)
                    == *old(self) && text@ == "Cannot begin handoff from state "@
                    + old(self)@.state.spelled(),
            },
    {
        proof {
            lemma_no_weight();
        }
        if self.state != StorageHandoffState::Stable {
            let mut text = String::from_str("Cannot begin handoff from state ");
            text.append(self.state.name());
            return Err(text);
        }
        self.state = StorageHandoffState::Draining;
        self.progress_weight = Binary64::from_u64(0);
        Ok(())
    }

    /// Advance the migration by `delta` time and `additional_migrated` bytes.
    /// Returns the progress, from 0 to 1.
    pub fn progress(&mut self, delta: Duration, additional_migrated: u64) -> (r: Binary64)
        ensures
            r == advanced(
                old(self)@.progress_weight,
                time_share(delta, old(self)@.transition_duration),
            ),
            final(self)@ == (StorageHandoffView {
                state: phase(r),
                migrated_bytes: if old(self)@.migrated_bytes + additional_migrated <= u64::MAX {
                    (old(self)@.migrated_bytes + additional_migrated) as u64
                } else {
                    u64::MAX
                },
                progress_weight: r,
                ..old(self)@
            }),
            final(self)@ == progressed(old(self)@, delta, additional_migrated),
            old(self).wf() && delta.valid() ==> {
                &&& final(self).wf()
                &&& at_most(old(self)@.progress_weight, r)
                &&& old(self)@.state.stage() <= final(self)@.state.stage()
            },
    {
        proof {
            lemma_no_weight();
            if old(self).wf() && delta.valid() {
                law_progress_never_goes_back(
                    old(self)@.progress_weight,
                    delta,
                    old(self)@.transition_duration,
                );
            }
        }
        self.migrated_bytes = self.migrated_bytes.saturating_add(additional_migrated);
        let total_secs = self.transition_duration.as_seconds().max(Binary64::ratio(1, 1000));
        let time_progress = delta.as_seconds().over(total_secs).clamp_to_unit();
        let one = Binary64::from_u64(1);
        self.progress_weight = self.progress_weight.plus(time_progress).min(one);
        self.state = if self.progress_weight.lt(Binary64::ratio(33, 100)) {
            StorageHandoffState::Draining
        } else if self.progress_weight.lt(Binary64::ratio(66, 100)) {
            StorageHandoffState::Migrating
        } else if self.progress_weight.lt(one) {
            StorageHandoffState::Settling
        } else {
            StorageHandoffState::Complete
        };
        self.progress_weight
    }

    /// Cancel the handoff: roll back to the source.
    pub fn cancel(&mut self) -> (r: Result<(), String>)
        ensures
            old(self).wf() ==> final(self).wf(),
            cancelled(old(self)@) == if r is Ok {
                Some(final(self)@)
            } else {
                None
            },
            match r {
                Ok(_) => old(self)@.state != StorageHandoffState::Complete && final(self)@ == (
                StorageHandoffView {
                    state: StorageHandoffState::Cancelled,
                    migrated_bytes: 0,
                    progress_weight: decimal(0, 1),
                    ..old(self)@
                }),
                Err(text) => old(self)@.state == StorageHandoffState::Complete && *final(self)
                    == *old(self) && text@ == "Cannot cancel a completed handoff"@,
            },
    {
        proof {
            lemma_no_weight();
        }
        if self.state == StorageHandoffState::Complete {
            return Err(String::from_str("Cannot cancel a completed handoff"));
        }
        self.state = StorageHandoffState::Cancelled;
        self.migrated_bytes = 0;
        self.progress_weight = Binary64::from_u64(0);
        Ok(())
    }

    /// How far the handoff is. Verified code of other modules reads the state here.
    pub fn current_state(&self) -> (r: StorageHandoffState)
        ensures
            r == self@.state,
    {
        self.state
    }

    /// Check if the handoff is complete.
    pub fn is_complete(&self) -> (r: bool)
        ensures
            r == (self@.state == StorageHandoffState::Complete),
    {
        self.state == StorageHandoffState::Complete
    }

    /// Files that should still resolve to the source volume (push-down for active reads).
    pub fn active_on_source(&self) -> (r: bool)
        ensures
            r == serves_from_source(self@.state),
    {
        matches!(
            self.state,
            StorageHandoffState::Stable
                | StorageHandoffState::Draining
                | StorageHandoffState::Migrating
                | StorageHandoffState::Cancelled
        )
    }

    /// Files that also resolve on the destination volume.
    pub fn active_on_destination(&self) -> (r: bool)
        ensures
            r == serves_from_destination(self@.state),
    {
        matches!(
            self.state,
            StorageHandoffState::Migrating | StorageHandoffState::Settling
        )
    }

    /// Get byte-based progress, from 0 to 1.
    pub fn byte_progress(&self) -> (r: Binary64)
        ensures
            r == byte_share(self@.migrated_bytes, self@.total_bytes),
    {
        if self.total_bytes == 0 {
            return Binary64::from_u64(1);
        }
        Binary64::from_u64(self.migrated_bytes).over(
            Binary64::from_u64(self.total_bytes),
        ).clamp_to_unit()
    }
}

/// A migration without weight is draining.
proof fn lemma_no_weight()
    ensures
        is_share(decimal(0, 1)),
        phase(decimal(0, 1)) == StorageHandoffState::Draining,
{
    let zero = decimal(0, 1);
    let third = decimal(33, 100);
    law_whole_numbers_keep_order(0, 1);
    law_numbers_are_exact(0);
    law_numbers_are_exact(1);
    vstd::arithmetic::power2::lemma2_to64();
    lemma_pow2_at_most(10, 1074);
    law_rounds_at_least(33 * one_units(), 100, 1);
    lemma_below_one(33);
    law_order_is_that_of_bits(zero, third);
}

/// Brought into the range from 0 to 1, an amount is a share: itself where it was one, else 1.
pub(crate) proof fn lemma_clamped(a: Binary64)
    requires
        is_amount(a),
    ensures
        is_share(unit_clamped(a)),
        unit_clamped(a) == if at_most(decimal(1, 1), a) {
            decimal(1, 1)
        } else {
            a
        },
{
    law_whole_numbers_are_exact(0);
    law_whole_numbers_are_exact(1);
    law_numbers_are_exact(0);
    law_order_is_that_of_bits(a, decimal(0, 1));
    law_order_is_that_of_bits(a, decimal(1, 1));
    law_order_is_that_of_bits(decimal(1, 1), a);
    law_order_is_that_of_bits(decimal(1, 1), decimal(1, 1));
    assert(decimal(0, 1).bits == 0);
}

/// The time that a share is taken of is positive and finite.
pub(crate) proof fn lemma_transition_seconds(transition: Duration)
    requires
        transition.valid(),
    ensures
        ({
            let total = larger(transition.seconds(), decimal(1, 1000));
            &&& is_amount(total)
            &&& total.is_finite()
            &&& total.bits > 0
            &&& at_most(transition.seconds(), total)
            &&& at_most(decimal(1, 1000), total)
        }),
{
    let least = Duration { secs: 0, nanos: 1_000_000 };
    law_millisecond();
    law_seconds_are_finite(transition);
    law_seconds_are_finite(least);
    law_order_is_that_of_bits(transition.seconds(), least.seconds());
    law_order_is_that_of_bits(least.seconds(), transition.seconds());
    law_numbers_are_exact(0);
    vstd::arithmetic::power2::lemma_pow2_pos(1074);
    vstd::arithmetic::power2::lemma2_to64();
    lemma_pow2_at_most(10, 1074);
    law_numbers_are_exact(1);
    law_rounds_at_least(1 * one_units(), 1000, 1);
}

/// The share of a transition that passes in any time is from 0 to 1.
pub proof fn law_time_share_is_a_share(delta: Duration, transition: Duration)
    requires
        delta.valid(),
        transition.valid(),
    ensures
        is_share(time_share(delta, transition)),
{
    let total = larger(transition.seconds(), decimal(1, 1000));
    lemma_transition_seconds(transition);
    law_seconds_are_finite(delta);
    law_quotient_keeps_order(delta.seconds(), delta.seconds(), total);
    lemma_clamped(quotient(delta.seconds(), total));
}

/// The weight of a migration stays from 0 to 1 and never falls, and a migration never goes back to
/// an earlier stage.
pub proof fn law_progress_never_goes_back(
    weight: Binary64,
    delta: Duration,
    transition: Duration,
)
    requires
        is_share(weight),
        delta.valid(),
        transition.valid(),
    ensures
        ({
            let next = advanced(weight, time_share(delta, transition));
            &&& is_share(next)
            &&& at_most(weight, next)
            &&& phase(weight).stage() <= phase(next).stage()
        }),
{
    let share = time_share(delta, transition);
    let one = decimal(1, 1);
    law_whole_numbers_are_exact(1);
    law_time_share_is_a_share(delta, transition);
    law_sum_is_not_smaller(weight, share);
    law_order_is_that_of_bits(sum(weight, share), one);
    law_order_is_that_of_bits(one, one);
    let next = advanced(weight, share);
    law_order_is_that_of_bits(weight, next);
    law_order_is_that_of_bits(weight, one);
    law_order_is_that_of_bits(next, one);
    law_stage_follows_weight(weight, next);
}

/// A larger weight is not an earlier stage.
pub proof fn law_stage_follows_weight(less: Binary64, more: Binary64)
    requires
        at_most(less, more),
    ensures
        phase(less).stage() <= phase(more).stage(),
{
}

/// A step that is as long as the transition, and at least a millisecond, completes the migration.
pub proof fn law_full_transition_completes(
    weight: Binary64,
    delta: Duration,
    transition: Duration,
)
    requires
        is_share(weight),
        delta.valid(),
        transition.valid(),
        transition.total_nanos() <= delta.total_nanos(),
        1_000_000 <= delta.total_nanos(),
    ensures
        advanced(weight, time_share(delta, transition)) == decimal(1, 1),
        phase(advanced(weight, time_share(delta, transition))) == StorageHandoffState::Complete,
{
    let one = decimal(1, 1);
    let total = larger(transition.seconds(), decimal(1, 1000));
    let least = Duration { secs: 0, nanos: 1_000_000 };
    lemma_transition_seconds(transition);
    law_millisecond();
    law_longer_is_not_fewer_seconds(transition, delta);
    law_longer_is_not_fewer_seconds(least, delta);
    law_seconds_are_finite(delta);
    assert(at_most(total, delta.seconds()));
    law_quotient_keeps_order(total, delta.seconds(), total);
    law_quotient_by_itself(total);
    lemma_clamped(quotient(delta.seconds(), total));
    assert(time_share(delta, transition) == one);
    law_whole_numbers_are_exact(1);
    law_sum_is_not_smaller(weight, one);
    law_complete_stays_complete(sum(weight, one));
}

/// What has reached the end stays there: any weight of at least 1 is cut to 1, and that is
/// complete.
pub proof fn law_complete_stays_complete(weight: Binary64)
    requires
        is_amount(weight),
        at_most(decimal(1, 1), weight),
    ensures
        smaller(weight, decimal(1, 1)) == decimal(1, 1),
        phase(decimal(1, 1)) == StorageHandoffState::Complete,
        forall|share: Binary64| #[trigger]
            is_share(share) ==> advanced(decimal(1, 1), share) == decimal(1, 1),
{
    let one = decimal(1, 1);
    law_whole_numbers_are_exact(1);
    law_order_is_that_of_bits(one, weight);
    law_order_is_that_of_bits(weight, one);
    law_whole_numbers_are_exact(0);
    lemma_below_one(33);
    lemma_below_one(66);
    assert forall|share: Binary64| #[trigger] is_share(share) implies advanced(one, share)
        == one by {
        law_sum_is_not_smaller(one, share);
        law_order_is_that_of_bits(one, sum(one, share));
        law_order_is_that_of_bits(sum(one, share), one);
    }
}

/// Less than a hundred hundredths are at most 1.
proof fn lemma_below_one(n: nat)
    requires
        n <= 100,
    ensures
        is_share(decimal(n, 100)),
{
    let one = one_units();
    assert((n * one) * 1 <= (1 * one) * 100) by (nonlinear_arith)
        requires
            n <= 100,
    ;
    law_rounding_keeps_order(n * one, 100, 1 * one, 1);
    law_whole_numbers_are_exact(1);
    law_order_is_that_of_bits(decimal(n, 100), decimal(1, 1));
}

/// Files are served by the source or by the destination until the migration is complete, by both
/// only while it is mid-way, and by the source alone once it was cancelled.
pub proof fn law_files_stay_served(state: StorageHandoffState)
    ensures
        serves_from_source(state) || serves_from_destination(state) <==> state
            != StorageHandoffState::Complete,
        serves_from_source(state) && serves_from_destination(state) <==> state
            == StorageHandoffState::Migrating,
        state == StorageHandoffState::Cancelled ==> serves_from_source(state)
            && !serves_from_destination(state),
{
}

/// Byte progress is from 0 to 1, grows with the bytes, and is 1 once all bytes have been migrated.
pub proof fn law_byte_progress(less: u64, more: u64, total: u64)
    requires
        less <= more,
    ensures
        is_share(byte_share(less, total)),
        at_most(byte_share(less, total), byte_share(more, total)),
        total <= more ==> byte_share(more, total) == decimal(1, 1),
{
    let one = decimal(1, 1);
    law_whole_numbers_are_exact(1);
    law_order_is_that_of_bits(one, one);
    if total > 0 {
        let whole = decimal(total as nat, 1);
        let a = decimal(less as nat, 1);
        let b = decimal(more as nat, 1);
        law_u64_is_finite(total);
        law_u64_is_finite(less);
        law_u64_is_finite(more);
        law_whole_numbers_keep_order(less as nat, more as nat);
        law_quotient_keeps_order(a, b, whole);
        lemma_clamped(quotient(a, whole));
        lemma_clamped(quotient(b, whole));
        law_order_is_that_of_bits(quotient(a, whole), quotient(b, whole));
        law_order_is_that_of_bits(one, quotient(a, whole));
        law_order_is_that_of_bits(one, quotient(b, whole));
        law_order_is_that_of_bits(quotient(a, whole), one);
        if total <= more {
            law_whole_numbers_keep_order(total as nat, more as nat);
            law_quotient_keeps_order(whole, b, whole);
            law_quotient_by_itself(whole);
        }
    }
}

} // verus!
